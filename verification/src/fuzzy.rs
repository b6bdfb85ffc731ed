//! Fuzzy matching and exact match scores.
//!
//! A query matches a target when its characters occur in the target in order.
//! The score rewards runs of neighbouring hits, hits near the start, a
//! contiguous occurrence and a compact overall span. Scores are exact
//! rationals: a whole part plus, for fuzzy hits, the compactness term
//! `20 / (1 + span)`. Comparisons are exact; a floating-point rendering of a
//! score is only for display.

use vstd::prelude::*;
use crate::text::{chars_of, contains, occurs_at, seq_contains};

verus! {

/// Numerator of the compactness term.
pub const SPAN_WEIGHT: u128 = 20;

/// An exact score: `whole`, plus `20 / (1 + s)` when `span` is `Some(s)`.
#[derive(Debug, Clone, Copy, PartialEq, Eq, Structural)]
pub struct Score {
    pub whole: u128,
    pub span: Option<usize>,
}

/// Denominator of the score's value.
pub open spec fn den(s: Score) -> int {
    match s.span {
        Some(k) => k + 1,
        None => 1,
    }
}

/// Numerator of the score's value over `den(s)`.
pub open spec fn num(s: Score) -> int {
    match s.span {
        Some(k) => s.whole * (k + 1) + 20,
        None => s.whole as int,
    }
}

/// `a` is worth strictly more than `b`.
pub open spec fn score_gt(a: Score, b: Score) -> bool {
    num(a) * den(b) > num(b) * den(a)
}

/// `a` and `b` are worth the same.
pub open spec fn score_eq(a: Score, b: Score) -> bool {
    num(a) * den(b) == num(b) * den(a)
}

/// The fractional part of a score lies in `[0, 20]`: 20 times the denominator
/// bounds the numerator's excess over the whole part.
proof fn lemma_frac_bounds(s: Score)
    ensures
        den(s) >= 1,
        s.whole * den(s) <= num(s) <= s.whole * den(s) + 20,
        s.span is Some ==> num(s) > s.whole * den(s),
{
}

proof fn lemma_far_apart(a: Score, b: Score)
    requires
        a.whole >= b.whole + 21,
    ensures
        score_gt(a, b),
{
    lemma_frac_bounds(a);
    lemma_frac_bounds(b);
    let (na, da, nb, db) = (num(a), den(a), num(b), den(b));
    let (wa, wb) = (a.whole as int, b.whole as int);
    assert(na * db > nb * da) by (nonlinear_arith)
        requires
            da >= 1,
            db >= 1,
            wa * da <= na,
            nb <= wb * db + 20,
            wa >= wb + 21,
            wb >= 0,
    {
        assert(na * db >= wa * da * db);
        assert(nb * da <= (wb * db + 20) * da);
        assert(wa * da * db >= (wb + 21) * da * db);
    }
}

/// The result of a successful fuzzy match.
#[derive(Debug, Clone, Copy, PartialEq, Eq, Structural)]
pub struct MatchResult {
    /// How well the query matched: higher is better.
    pub score: Score,
}

/// Exact comparison of two scores.
pub fn beats(a: Score, b: Score) -> (r: bool)
    ensures
        r == score_gt(a, b),
{
    proof {
        lemma_frac_bounds(a);
        lemma_frac_bounds(b);
    }
    let fa: u128 = if a.span.is_some() { SPAN_WEIGHT } else { 0 };
    let fb: u128 = if b.span.is_some() { SPAN_WEIGHT } else { 0 };
    let da: u128 = match a.span {
        Some(k) => k as u128 + 1,
        None => 1,
    };
    let db: u128 = match b.span {
        Some(k) => k as u128 + 1,
        None => 1,
    };
    assert(num(a) == a.whole * da + fa && den(a) == da);
    assert(num(b) == b.whole * db + fb && den(b) == db);
    if a.whole >= b.whole && a.whole - b.whole >= 21 {
        proof {
            lemma_far_apart(a, b);
        }
        return true;
    }
    if b.whole >= a.whole && b.whole - a.whole >= 21 {
        proof {
            lemma_far_apart(b, a);
        }
        assert(!score_gt(a, b)) by (nonlinear_arith)
            requires
                num(b) * den(a) > num(a) * den(b),
        ;
        return false;
    }
    let ghost wa = a.whole as int;
    let ghost wb = b.whole as int;
    // value(a) > value(b)  <=>  (wa - wb) * da * db + fa * db > fb * da
    assert(score_gt(a, b) <==> (wa - wb) * da * db + fa * db > fb * da) by (nonlinear_arith)
        requires
            num(a) == wa * da + fa,
            num(b) == wb * db + fb,
            den(a) == da,
            den(b) == db,
    ;
    if a.whole == b.whole {
        assert((wa - wb) * da * db == 0) by (nonlinear_arith)
            requires
                wa == wb,
        ;
        assert(fa * db <= 20 * 0x1_0000_0000_0000_0000) by (nonlinear_arith)
            requires
                fa <= 20,
                db <= 0x1_0000_0000_0000_0000,
        ;
        assert(fb * da <= 20 * 0x1_0000_0000_0000_0000) by (nonlinear_arith)
            requires
                fb <= 20,
                da <= 0x1_0000_0000_0000_0000,
        ;
        return fa * db > fb * da;
    }
    if a.whole > b.whole {
        let d: u128 = a.whole - b.whole;
        if db > 20 {
            assert((wa - wb) * da * db + fa * db > fb * da) by (nonlinear_arith)
                requires
                    wa - wb >= 1,
                    da >= 1,
                    db > 20,
                    fa >= 0,
                    fb <= 20,
            {
                assert((wa - wb) * da * db >= da * db);
                assert(da * db > 20 * da);
                assert(fa * db >= 0);
                assert(fb * da <= 20 * da);
            }
            return true;
        }
        assert(d * da * db <= 20 * 0x1_0000_0000_0000_0000 * 20) by (nonlinear_arith)
            requires
                d <= 20,
                da <= 0x1_0000_0000_0000_0000,
                db <= 20,
        ;
        assert(fa * db <= 400) by (nonlinear_arith)
            requires
                fa <= 20,
                db <= 20,
        ;
        assert(fb * da <= 20 * 0x1_0000_0000_0000_0000) by (nonlinear_arith)
            requires
                fb <= 20,
                da <= 0x1_0000_0000_0000_0000,
        ;
        assert(d * da <= 20 * 0x1_0000_0000_0000_0000) by (nonlinear_arith)
            requires
                d <= 20,
                da <= 0x1_0000_0000_0000_0000,
        ;
        return d * da * db + fa * db > fb * da;
    }
    let e: u128 = b.whole - a.whole;
    // (wa - wb) * da * db + fa * db > fb * da  <=>  fa * db > e * da * db + fb * da
    if da > 20 {
        assert(!((wa - wb) * da * db + fa * db > fb * da)) by (nonlinear_arith)
            requires
                wb - wa >= 1,
                da > 20,
                db >= 1,
                fa <= 20,
                fb >= 0,
        {
            assert((wb - wa) * da * db >= da * db);
            assert(da * db > 20 * db);
            assert(fa * db <= 20 * db);
        }
        return false;
    }
    assert(e * db * da <= 20 * 0x1_0000_0000_0000_0000 * 20) by (nonlinear_arith)
        requires
            e <= 20,
            db <= 0x1_0000_0000_0000_0000,
            da <= 20,
    ;
    assert(e * db <= 20 * 0x1_0000_0000_0000_0000) by (nonlinear_arith)
        requires
            e <= 20,
            db <= 0x1_0000_0000_0000_0000,
    ;
    assert(fa * db <= 20 * 0x1_0000_0000_0000_0000) by (nonlinear_arith)
        requires
            fa <= 20,
            db <= 0x1_0000_0000_0000_0000,
    ;
    assert(fb * da <= 400) by (nonlinear_arith)
        requires
            fb <= 20,
            da <= 20,
    ;
    assert(((wa - wb) * da * db + fa * db > fb * da) <==> (fa * db > e * db * da + fb * da))
        by (nonlinear_arith)
        requires
            e == wb - wa,
    ;
    fa * db > e * db * da + fb * da
}

/// Positions in `t`, from `ti` on, where the greedy scan hits the characters
/// `q[qi..]`: each query character is taken at its first occurrence after the
/// previous hit.
pub open spec fn hits(q: Seq<char>, t: Seq<char>, qi: int, ti: int) -> Seq<int>
    decreases t.len() - ti,
{
    if qi < 0 || ti < 0 || qi >= q.len() || ti >= t.len() {
        Seq::empty()
    } else if t[ti] == q[qi] {
        seq![ti].add(hits(q, t, qi + 1, ti + 1))
    } else {
        hits(q, t, qi, ti + 1)
    }
}

/// All greedy hits of `q` in `t`.
pub open spec fn greedy(q: Seq<char>, t: Seq<char>) -> Seq<int> {
    hits(q, t, 0, 0)
}

/// Whole-number bonus of a run of hit positions: 3 for each hit right after
/// the previous one, 2 for each hit among the first three characters.
pub open spec fn run_bonus(p: Seq<int>) -> int
    decreases p.len(),
{
    if p.len() == 0 {
        0
    } else {
        run_bonus(p.drop_last()) + (if p.len() > 1 && p.last() == p[p.len() - 2] + 1 {
            3int
        } else {
            0int
        }) + (if p.last() < 3 {
            2int
        } else {
            0int
        })
    }
}

/// The score of a match of `q` in `t` whose greedy hits are `p`.
pub open spec fn match_score(q: Seq<char>, t: Seq<char>, p: Seq<int>) -> Score {
    Score {
        whole: (run_bonus(p) + (if seq_contains(t, q) {
            50int
        } else {
            0int
        }) + (if p[0] == 0 {
            10int
        } else {
            0int
        })) as u128,
        span: Some((p.last() - p[0]) as usize),
    }
}

/// What `fuzzy_match` answers: `None` when the greedy scan cannot place every
/// query character; the empty query matches everything with the token score
/// `20 / 2000`.
pub open spec fn spec_fuzzy(q: Seq<char>, t: Seq<char>) -> Option<Score> {
    if q.len() == 0 {
        Some(Score { whole: 0, span: Some(1999) })
    } else if greedy(q, t).len() < q.len() {
        None
    } else {
        Some(match_score(q, t, greedy(q, t)))
    }
}

/// `q` occurs in `t` as a subsequence: some strictly increasing positions of
/// `t` spell `q`.
pub open spec fn is_subsequence(q: Seq<char>, t: Seq<char>) -> bool {
    exists|p: Seq<int>| embeds(q, t, p)
}

pub open spec fn embeds(q: Seq<char>, t: Seq<char>, p: Seq<int>) -> bool {
    &&& p.len() == q.len()
    &&& forall|k: int| 0 <= k < p.len() ==> 0 <= #[trigger] p[k] < t.len() && t[p[k]] == q[k]
    &&& forall|k: int, l: int| 0 <= k < l < p.len() ==> p[k] < p[l]
}

proof fn lemma_hits_shape(q: Seq<char>, t: Seq<char>, qi: int, ti: int)
    requires
        0 <= qi <= q.len(),
        0 <= ti,
    ensures
        hits(q, t, qi, ti).len() <= q.len() - qi,
        hits(q, t, qi, ti).len() <= t.len() - ti || hits(q, t, qi, ti).len() == 0,
        forall|k: int|
            0 <= k < hits(q, t, qi, ti).len() ==> ti <= #[trigger] hits(q, t, qi, ti)[k] < t.len()
                && t[hits(q, t, qi, ti)[k]] == q[qi + k],
        forall|k: int, l: int|
            0 <= k < l < hits(q, t, qi, ti).len() ==> hits(q, t, qi, ti)[k] < hits(q, t, qi, ti)[l],
    decreases t.len() - ti,
{
    if qi >= q.len() || ti >= t.len() {
    } else if t[ti] == q[qi] {
        lemma_hits_shape(q, t, qi + 1, ti + 1);
        let rest = hits(q, t, qi + 1, ti + 1);
        let h = seq![ti].add(rest);
        assert(hits(q, t, qi, ti) == h);
        assert forall|k: int| 0 <= k < h.len() implies ti <= #[trigger] h[k] < t.len() && t[h[k]]
            == q[qi + k] by {
            if k > 0 {
                assert(h[k] == rest[k - 1]);
            }
        }
        assert forall|k: int, l: int| 0 <= k < l < h.len() implies h[k] < h[l] by {
            if k > 0 {
                assert(h[k] == rest[k - 1]);
            }
            assert(h[l] == rest[l - 1]);
        }
    } else {
        lemma_hits_shape(q, t, qi, ti + 1);
    }
}

/// If `q[qi..]` embeds in `t` at positions all at or after `ti`, the greedy
/// scan from `ti` places all of `q[qi..]`.
proof fn lemma_hits_complete(q: Seq<char>, t: Seq<char>, qi: int, ti: int, p: Seq<int>)
    requires
        0 <= qi <= q.len(),
        0 <= ti,
        p.len() == q.len() - qi,
        forall|k: int| 0 <= k < p.len() ==> ti <= #[trigger] p[k] < t.len() && t[p[k]] == q[qi + k],
        forall|k: int, l: int| 0 <= k < l < p.len() ==> p[k] < p[l],
    ensures
        hits(q, t, qi, ti).len() == q.len() - qi,
    decreases t.len() - ti,
{
    if qi >= q.len() {
    } else {
        assert(ti <= p[0] < t.len());
        if t[ti] == q[qi] {
            let p2 = p.drop_first();
            assert forall|k: int| 0 <= k < p2.len() implies ti + 1 <= #[trigger] p2[k] < t.len()
                && t[p2[k]] == q[qi + 1 + k] by {
                assert(p2[k] == p[k + 1]);
                assert(p[0] < p[k + 1]);
            }
            assert forall|k: int, l: int| 0 <= k < l < p2.len() implies p2[k] < p2[l] by {
                assert(p2[k] == p[k + 1] && p2[l] == p[l + 1]);
            }
            lemma_hits_complete(q, t, qi + 1, ti + 1, p2);
        } else {
            assert(p[0] != ti);
            assert forall|k: int| 0 <= k < p.len() implies ti + 1 <= #[trigger] p[k] < t.len()
                && t[p[k]] == q[qi + k] by {
                if k > 0 {
                    assert(p[0] < p[k]);
                }
            }
            lemma_hits_complete(q, t, qi, ti + 1, p);
        }
    }
}

/// The greedy scan places every character of `q` exactly when `q` is a
/// subsequence of `t`; the positions it finds are then an embedding.
pub proof fn lemma_greedy_iff_subsequence(q: Seq<char>, t: Seq<char>)
    ensures
        (greedy(q, t).len() == q.len()) <==> is_subsequence(q, t),
        greedy(q, t).len() == q.len() ==> embeds(q, t, greedy(q, t)),
{
    lemma_hits_shape(q, t, 0, 0);
    if greedy(q, t).len() == q.len() {
        assert(embeds(q, t, greedy(q, t)));
    }
    if is_subsequence(q, t) {
        let p = choose|p: Seq<int>| embeds(q, t, p);
        assert forall|k: int| 0 <= k < p.len() implies 0 <= #[trigger] p[k] < t.len() && t[p[k]]
            == q[0 + k] by {}
        lemma_hits_complete(q, t, 0, 0, p);
    }
}

/// `fuzzy_match` succeeds exactly when the query's characters occur in the
/// target in order.
pub proof fn lemma_fuzzy_iff_subsequence(q: Seq<char>, t: Seq<char>)
    ensures
        spec_fuzzy(q, t) is Some <==> is_subsequence(q, t),
{
    lemma_greedy_iff_subsequence(q, t);
    lemma_hits_shape(q, t, 0, 0);
    if q.len() == 0 {
        let p = Seq::<int>::empty();
        assert(embeds(q, t, p));
    }
}

/// The score of `query` fuzzily matched against `target`: `None` unless the
/// query's characters occur in the target in order; otherwise the score of
/// the greedy placement (each query character at its first occurrence after
/// the previous hit).
pub fn fuzzy_score(query: &str, target: &str) -> (r: Option<Score>)
    ensures
        r == spec_fuzzy(query@, target@),
        r matches Some(s) ==> s.whole < 0x1_0000_0000_0000_0000_0000,
{
    let q = chars_of(query);
    let t = chars_of(target);
    if q.len() == 0 {
        return Some(Score { whole: 0, span: Some(1999) });
    }
    if q.len() > t.len() {
        proof {
            lemma_hits_shape(q@, t@, 0, 0);
        }
        return None;
    }
    let mut qi: usize = 0;
    let mut ti: usize = 0;
    let mut bonus: u128 = 0;
    let mut first: usize = 0;
    let mut last: usize = 0;
    let ghost mut m: Seq<int> = Seq::empty();
    assert(greedy(q@, t@) == m + hits(q@, t@, 0, 0));
    while ti < t.len() && qi < q.len()
        invariant
            q@ == query@,
            t@ == target@,
            0 < q@.len() <= t@.len(),
            qi <= q@.len(),
            ti <= t@.len(),
            m.len() == qi,
            greedy(q@, t@) == m + hits(q@, t@, qi as int, ti as int),
            bonus == run_bonus(m),
            bonus <= 5 * qi,
            qi > 0 ==> first == m[0] && last == m.last() && last < ti && first <= last,
        decreases t@.len() - ti,
    {
        if t[ti] == q[qi] {
            let ghost old_m = m;
            if qi > 0 && ti == last + 1 {
                bonus = bonus + 3;
            }
            if ti < 3 {
                bonus = bonus + 2;
            }
            if qi == 0 {
                first = ti;
            }
            last = ti;
            proof {
                m = m.push(ti as int);
                assert(m.drop_last() == old_m);
                assert(hits(q@, t@, qi as int, ti as int) == seq![ti as int].add(
                    hits(q@, t@, qi + 1, ti + 1),
                ));
                assert(old_m + hits(q@, t@, qi as int, ti as int) == m + hits(
                    q@,
                    t@,
                    qi + 1,
                    ti + 1,
                ));
            }
            qi = qi + 1;
        }
        ti = ti + 1;
    }
    assert(hits(q@, t@, qi as int, ti as int) == Seq::<int>::empty());
    assert(greedy(q@, t@) == m);
    if qi < q.len() {
        return None;
    }
    let mut whole: u128 = bonus;
    if contains(&t, &q) {
        whole = whole + 50;
    }
    if first == 0 {
        whole = whole + 10;
    }
    Some(Score { whole, span: Some(last - first) })
}

/// Score order is transitive, and compatible with equal worth.
pub proof fn lemma_score_order(a: Score, b: Score, c: Score)
    ensures
        score_gt(a, b) && score_gt(b, c) ==> score_gt(a, c),
        score_gt(a, b) && score_eq(b, c) ==> score_gt(a, c),
        score_eq(a, b) && score_gt(b, c) ==> score_gt(a, c),
        score_eq(a, b) && score_eq(b, c) ==> score_eq(a, c),
        score_eq(a, b) ==> score_eq(b, a),
        score_eq(a, a),
        !score_gt(a, a),
        score_gt(a, b) || score_gt(b, a) || score_eq(a, b),
        !(score_gt(a, b) && score_gt(b, a)),
        !(score_gt(a, b) && score_eq(a, b)),
{
    lemma_frac_bounds(a);
    lemma_frac_bounds(b);
    lemma_frac_bounds(c);
    let (na, da, nb, db, nc, dc) = (num(a), den(a), num(b), den(b), num(c), den(c));
    assert(na * db > nb * da && nb * dc > nc * db ==> na * dc > nc * da) by (nonlinear_arith)
        requires
            da >= 1,
            db >= 1,
            dc >= 1,
    {
        if na * db > nb * da && nb * dc > nc * db {
            assert(na * db * dc > nb * da * dc);
            assert(nb * dc * da > nc * db * da);
            assert(na * dc * db > nc * da * db);
        }
    }
    assert(na * db > nb * da && nb * dc == nc * db ==> na * dc > nc * da) by (nonlinear_arith)
        requires
            da >= 1,
            db >= 1,
            dc >= 1,
    {
        if na * db > nb * da && nb * dc == nc * db {
            assert(na * db * dc > nb * da * dc);
            assert(nb * dc * da == nc * db * da);
            assert(na * dc * db > nc * da * db);
        }
    }
    assert(na * db == nb * da && nb * dc > nc * db ==> na * dc > nc * da) by (nonlinear_arith)
        requires
            da >= 1,
            db >= 1,
            dc >= 1,
    {
        if na * db == nb * da && nb * dc > nc * db {
            assert(na * db * dc == nb * da * dc);
            assert(nb * dc * da > nc * db * da);
            assert(na * dc * db > nc * da * db);
        }
    }
    assert(na * db == nb * da && nb * dc == nc * db ==> na * dc == nc * da) by (nonlinear_arith)
        requires
            da >= 1,
            db >= 1,
            dc >= 1,
    {
        if na * db == nb * da && nb * dc == nc * db {
            assert(na * db * dc == nb * da * dc);
            assert(nb * dc * da == nc * db * da);
            assert(na * dc * db == nc * da * db);
        }
    }
}

/// The better of two scores; `a` when they are worth the same.
pub fn better(a: Score, b: Score) -> (r: Score)
    ensures
        r == (if score_gt(b, a) { b } else { a }),
        !score_gt(a, r) && !score_gt(b, r),
{
    proof {
        lemma_score_order(a, b, a);
        lemma_score_order(b, a, b);
    }
    if beats(b, a) {
        b
    } else {
        a
    }
}

/// Adds a whole bonus to a score.
pub fn plus(s: Score, extra: u128) -> (r: Score)
    requires
        s.whole + extra <= u128::MAX,
    ensures
        r == (Score { whole: (s.whole + extra) as u128, span: s.span }),
{
    Score { whole: s.whole + extra, span: s.span }
}

/// Fuzzy match of `query` against `target` (see [`fuzzy_score`]).
pub fn fuzzy_match(query: &str, target: &str) -> (r: Option<MatchResult>)
    ensures
        match r {
            Some(m) => spec_fuzzy(query@, target@) == Some(m.score),
            None => spec_fuzzy(query@, target@) is None,
        },
{
    match fuzzy_score(query, target) {
        Some(score) => Some(MatchResult { score }),
        None => None,
    }
}

proof fn lemma_run_bonus_bounds(p: Seq<int>)
    ensures
        0 <= run_bonus(p) <= 5 * p.len(),
    decreases p.len(),
{
    if p.len() > 0 {
        lemma_run_bonus_bounds(p.drop_last());
    }
}

/// A query that occurs in the target as a contiguous run matches it, and
/// its score carries the contiguous-occurrence bonus: the whole part is at
/// least 50, wherever the scan placed the individual characters.
pub proof fn lemma_contiguous_bonus(q: Seq<char>, t: Seq<char>, i: int)
    requires
        q.len() > 0,
        t.len() <= usize::MAX,
        0 <= i,
        i + q.len() <= t.len(),
        t.subrange(i, i + q.len()) == q,
    ensures
        spec_fuzzy(q, t) matches Some(s) && s.whole >= 50,
{
    assert(occurs_at(t, q, i));
    let p = Seq::new(q.len(), |k: int| i + k);
    assert forall|k: int| 0 <= k < p.len() implies 0 <= #[trigger] p[k] < t.len() && t[p[k]] == q[k] by {
        assert(t.subrange(i, i + q.len())[k] == t[i + k]);
    }
    assert(embeds(q, t, p));
    lemma_greedy_iff_subsequence(q, t);
    lemma_run_bonus_bounds(greedy(q, t));
}

/// For a query of at most seven characters that does not occur in the
/// target as a contiguous run, the whole part of a match stays below 50: the
/// contiguous-occurrence bonus goes to contiguous occurrences only.
pub proof fn lemma_no_bonus_without_occurrence(q: Seq<char>, t: Seq<char>)
    requires
        1 <= q.len() <= 7,
        forall|i: int| 0 <= i && i + q.len() <= t.len() ==> #[trigger] t.subrange(i, i + q.len()) != q,
    ensures
        spec_fuzzy(q, t) matches Some(s) ==> s.whole < 50,
{
    assert(!seq_contains(t, q));
    lemma_hits_shape(q, t, 0, 0);
    lemma_run_bonus_bounds(greedy(q, t));
}

proof fn lemma_prefix_hits(q: Seq<char>, t: Seq<char>, k: int)
    requires
        0 <= k <= q.len() <= t.len(),
        t.take(q.len() as int) == q,
    ensures
        hits(q, t, k, k) == Seq::new((q.len() - k) as nat, |j: int| k + j),
    decreases q.len() - k,
{
    if k < q.len() {
        assert(t[k] == t.take(q.len() as int)[k]);
        lemma_prefix_hits(q, t, k + 1);
        assert(hits(q, t, k, k) =~= Seq::new((q.len() - k) as nat, |j: int| k + j));
    } else {
        assert(hits(q, t, k, k) =~= Seq::new((q.len() - k) as nat, |j: int| k + j));
    }
}

proof fn lemma_run_bonus_from_start(m: nat)
    requires
        m >= 1,
    ensures
        run_bonus(Seq::new(m, |j: int| j)) == 3 * (m - 1) + 2 * (if m < 3 {
            m as int
        } else {
            3
        }),
    decreases m,
{
    let p = Seq::new(m, |j: int| j);
    assert(p.last() == m - 1);
    if m > 1 {
        assert(p[p.len() - 2] == m - 2);
        assert(p.drop_last() =~= Seq::new((m - 1) as nat, |j: int| j));
        lemma_run_bonus_from_start((m - 1) as nat);
        assert(run_bonus(p) == run_bonus(p.drop_last()) + 3 + (if m - 1 < 3 {
            2int
        } else {
            0int
        }));
    } else {
        assert(p.drop_last() =~= Seq::<int>::empty());
        assert(run_bonus(p.drop_last()) == 0);
        assert(run_bonus(p) == 2);
    }
}

/// A query that the target starts with scores its exact value: 50 for the
/// contiguous occurrence, 10 for the hit at the start, 3 for every hit right
/// after the previous one, 2 for each hit among the first three characters,
/// and a span of one less than the query's length.
pub proof fn lemma_prefix_score(q: Seq<char>, t: Seq<char>)
    requires
        1 <= q.len() <= t.len(),
        t.len() <= usize::MAX,
        t.take(q.len() as int) == q,
    ensures
        spec_fuzzy(q, t) == Some(
            Score {
                whole: (60 + 3 * (q.len() - 1) + 2 * (if q.len() < 3 {
                    q.len() as int
                } else {
                    3
                })) as u128,
                span: Some((q.len() - 1) as usize),
            },
        ),
{
    lemma_prefix_hits(q, t, 0);
    let g = greedy(q, t);
    assert(g =~= Seq::new(q.len(), |j: int| 0 + j));
    assert(g =~= Seq::new(q.len(), |j: int| j));
    lemma_run_bonus_from_start(q.len());
    assert(occurs_at(t, q, 0)) by {
        assert(t.subrange(0, q.len() as int) =~= t.take(q.len() as int));
    }
}

} // verus!
