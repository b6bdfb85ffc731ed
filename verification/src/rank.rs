//! Ranking: a stable order by score (best first), then by name.

use vstd::prelude::*;
use crate::fuzzy::{beats, lemma_score_order, score_eq, score_gt, Score};
use crate::text::{chars_eq, chars_lt, lemma_lt_irreflexive, lemma_lt_total, lemma_lt_transitive, seq_lt};

verus! {

/// Entry `i` ranks before entry `j`: a better score, or the same worth and a
/// smaller name, or both equal and an earlier position.
pub open spec fn ranks_before(sc: Seq<Score>, nm: Seq<Seq<char>>, i: int, j: int) -> bool {
    ||| score_gt(sc[i], sc[j])
    ||| score_eq(sc[i], sc[j]) && seq_lt(nm[i], nm[j])
    ||| score_eq(sc[i], sc[j]) && nm[i] == nm[j] && i < j
}

/// `ranks_before` is a strict total order on positions.
pub proof fn lemma_ranks_order(sc: Seq<Score>, nm: Seq<Seq<char>>, i: int, j: int, k: int)
    ensures
        !ranks_before(sc, nm, i, i),
        i != j ==> ranks_before(sc, nm, i, j) || ranks_before(sc, nm, j, i),
        !(ranks_before(sc, nm, i, j) && ranks_before(sc, nm, j, i)),
        ranks_before(sc, nm, i, j) && ranks_before(sc, nm, j, k) ==> ranks_before(sc, nm, i, k),
{
    lemma_score_order(sc[i], sc[j], sc[k]);
    lemma_score_order(sc[j], sc[i], sc[k]);
    lemma_score_order(sc[i], sc[k], sc[j]);
    lemma_score_order(sc[j], sc[k], sc[i]);
    lemma_score_order(sc[k], sc[i], sc[j]);
    lemma_score_order(sc[k], sc[j], sc[i]);
    lemma_lt_irreflexive(nm[i]);
    lemma_lt_total(nm[i], nm[j]);
    if seq_lt(nm[i], nm[j]) && seq_lt(nm[j], nm[i]) {
        lemma_lt_transitive(nm[i], nm[j], nm[i]);
    }
    if seq_lt(nm[i], nm[j]) && seq_lt(nm[j], nm[k]) {
        lemma_lt_transitive(nm[i], nm[j], nm[k]);
    }
}

/// Exact rank comparison of two entries.
fn ranks_before_exec(scores: &Vec<Score>, names: &Vec<Vec<char>>, i: usize, j: usize) -> (r: bool)
    requires
        i < scores@.len(),
        j < scores@.len(),
        scores@.len() == names@.len(),
    ensures
        r == ranks_before(scores@, names@.map_values(|v: Vec<char>| v@), i as int, j as int),
{
    let ghost nm = names@.map_values(|v: Vec<char>| v@);
    assert(nm[i as int] == names@[i as int]@ && nm[j as int] == names@[j as int]@);
    proof {
        lemma_score_order(scores@[i as int], scores@[j as int], scores@[i as int]);
    }
    if beats(scores[i], scores[j]) {
        return true;
    }
    if beats(scores[j], scores[i]) {
        return false;
    }
    if chars_lt(&names[i], &names[j]) {
        return true;
    }
    chars_eq(&names[i], &names[j]) && i < j
}

/// The positions `0..n` in rank order: best score first, then by name, then
/// by position (a stable sort).
pub fn rank_order(scores: &Vec<Score>, names: &Vec<Vec<char>>) -> (r: Vec<usize>)
    requires
        scores@.len() == names@.len(),
    ensures
        r@.len() == scores@.len(),
        forall|k: int| 0 <= k < r@.len() ==> (#[trigger] r@[k]) < scores@.len(),
        forall|x: usize| x < scores@.len() ==> #[trigger] r@.contains(x),
        forall|k: int, l: int|
            0 <= k < l < r@.len() ==> ranks_before(
                scores@,
                names@.map_values(|v: Vec<char>| v@),
                r@[k] as int,
                r@[l] as int,
            ),
{
    let ghost nm = names@.map_values(|v: Vec<char>| v@);
    let mut out: Vec<usize> = Vec::new();
    let mut i: usize = 0;
    while i < scores.len()
        invariant
            nm == names@.map_values(|v: Vec<char>| v@),
            scores@.len() == names@.len(),
            i <= scores@.len(),
            out@.len() == i,
            forall|k: int| 0 <= k < out@.len() ==> (#[trigger] out@[k]) < i,
            forall|x: usize| x < i ==> #[trigger] out@.contains(x),
            forall|k: int, l: int|
                0 <= k < l < out@.len() ==> ranks_before(scores@, nm, out@[k] as int, out@[l] as int),
        decreases scores@.len() - i,
    {
        let mut p: usize = 0;
        while p < out.len() && !ranks_before_exec(scores, names, i, out[p])
            invariant
                nm == names@.map_values(|v: Vec<char>| v@),
                scores@.len() == names@.len(),
                i < scores@.len(),
                p <= out@.len(),
                forall|k: int| 0 <= k < out@.len() ==> (#[trigger] out@[k]) < i,
                forall|k: int| 0 <= k < p ==> ranks_before(scores@, nm, out@[k] as int, i as int),
            decreases out@.len() - p,
        {
            proof {
                lemma_ranks_order(scores@, nm, i as int, out@[p as int] as int, 0);
            }
            p = p + 1;
        }
        let ghost before = out@;
        proof {
            if p < before.len() {
                assert(ranks_before(scores@, nm, i as int, before[p as int] as int));
            }
        }
        out.insert(p, i);
        proof {
            assert(out@ == before.insert(p as int, i));
            assert forall|k: int, l: int| 0 <= k < l < out@.len() implies ranks_before(
                scores@,
                nm,
                out@[k] as int,
                out@[l] as int,
            ) by {
                if l < p {
                    assert(out@[k] == before[k] && out@[l] == before[l]);
                } else if l == p {
                    assert(out@[k] == before[k]);
                } else if k == p {
                    assert(out@[l] == before[l - 1]);
                    if l - 1 > p {
                        lemma_ranks_order(scores@, nm, i as int, before[p as int] as int, before[l - 1] as int);
                    }
                } else if k < p {
                    assert(out@[k] == before[k] && out@[l] == before[l - 1]);
                } else {
                    assert(out@[k] == before[k - 1] && out@[l] == before[l - 1]);
                }
            }
            assert forall|x: usize| x < i + 1 implies #[trigger] out@.contains(x) by {
                if x == i {
                    assert(out@[p as int] == i);
                } else {
                    assert(before.contains(x));
                    let w = choose|w: int| 0 <= w < before.len() && before[w] == x;
                    if w < p {
                        assert(out@[w] == before[w]);
                    } else {
                        assert(out@[w + 1] == before[w]);
                    }
                }
            }
            assert forall|k: int| 0 <= k < out@.len() implies (#[trigger] out@[k]) < i + 1 by {
                if k < p {
                    assert(out@[k] == before[k]);
                } else if k > p {
                    assert(out@[k] == before[k - 1]);
                }
            }
        }
        i = i + 1;
    }
    out
}

} // verus!
