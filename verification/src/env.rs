//! Environment-variable synchronisation logic.
//!
//! A resident process keeps the environment block it was started with; when the
//! user edits variables later, the launcher re-reads the registry and aligns its
//! own environment before spawning children. Reading the registry and writing
//! the process environment are platform side effects; merging the two scopes,
//! expanding `%REF%` references and computing the delta are pure and live here.

use vstd::prelude::*;
use crate::text::{
    chars_eq, chars_lt, chars_of, extend_chars, lemma_lt_irreflexive, lemma_lt_total,
    lemma_lt_transitive, seq_lt, slice_chars, string_of, trim, trim_chars, upper_chars, upper_seq,
};

verus! {

/// Maximum nesting depth when resolving `%REF%` chains (a broken registry must
/// not send the process into endless recursion).
pub const MAX_EXPAND_DEPTH: usize = 8;

/// One environment variable as read from the registry.
#[derive(Debug)]
pub struct EnvEntry {
    /// Variable name, exactly as stored.
    pub name: String,
    /// Variable value (may still contain `%REF%` references).
    pub value: String,
    /// Whether `%REF%` references are to be expanded (`REG_EXPAND_SZ`).
    pub expand: bool,
}

/// The mathematical content of an [`EnvEntry`].
pub struct EnvView {
    pub name: Seq<char>,
    pub value: Seq<char>,
    pub expand: bool,
}

impl View for EnvEntry {
    type V = EnvView;

    open spec fn view(&self) -> EnvView {
        EnvView { name: self.name@, value: self.value@, expand: self.expand }
    }
}

pub open spec fn views(s: Seq<EnvEntry>) -> Seq<EnvView> {
    s.map_values(|e: EnvEntry| e@)
}

impl EnvEntry {
    /// An entry whose references are to be expanded.
    pub fn expanding(name: &str, value: &str) -> (r: EnvEntry)
        ensures
            r@ == (EnvView { name: name@, value: value@, expand: true }),
    {
        EnvEntry { name: name.to_string(), value: value.to_string(), expand: true }
    }
}

fn copy_entry(e: &EnvEntry) -> (r: EnvEntry)
    ensures
        r@ == e@,
{
    EnvEntry { name: e.name.clone(), value: e.value.clone(), expand: e.expand }
}

/// The lookup key of a variable name: Windows names are case-insensitive, so
/// they are compared in ASCII upper case.
pub open spec fn key_of(name: Seq<char>) -> Seq<char> {
    upper_seq(name)
}

/// Normalises a variable name (ASCII upper case).
pub fn normalize(name: &str) -> (r: String)
    ensures
        r@ == key_of(name@),
{
    let v = chars_of(name);
    let u = upper_chars(&v);
    string_of(&u)
}

// ---------------------------------------------------------------------------
// Merging the machine and the user scope
// ---------------------------------------------------------------------------

pub open spec fn path_key() -> Seq<char> {
    seq!['P', 'A', 'T', 'H']
}

/// Session variables (temporary directories): the machine scope points them at
/// the service temp directory, so they are only taken from the user scope.
pub open spec fn is_session_owned(key: Seq<char>) -> bool {
    key == seq!['T', 'E', 'M', 'P'] || key == seq!['T', 'M', 'P']
}

pub open spec fn has_key(acc: Seq<EnvView>, k: Seq<char>) -> bool {
    exists|i: int| 0 <= i < acc.len() && key_of(acc[i].name) == k
}

pub open spec fn key_pos(acc: Seq<EnvView>, k: Seq<char>) -> int {
    choose|i: int| 0 <= i < acc.len() && key_of(acc[i].name) == k
}

/// No two entries share a key.
pub open spec fn unique_keys(acc: Seq<EnvView>) -> bool {
    forall|i: int, j: int|
        0 <= i < acc.len() && 0 <= j < acc.len() && i != j ==> key_of(acc[i].name) != key_of(
            acc[j].name,
        )
}

/// `s` without trailing `c` characters.
pub open spec fn strip_end(s: Seq<char>, c: char) -> Seq<char>
    decreases s.len(),
{
    if s.len() > 0 && s.last() == c {
        strip_end(s.drop_last(), c)
    } else {
        s
    }
}

/// `s` without leading `c` characters.
pub open spec fn strip_start(s: Seq<char>, c: char) -> Seq<char>
    decreases s.len(),
{
    if s.len() > 0 && s[0] == c {
        strip_start(s.drop_first(), c)
    } else {
        s
    }
}

/// Two `PATH` values joined by one `;`, redundant separators at the seam removed.
pub open spec fn spec_join_path(system: Seq<char>, user: Seq<char>) -> Seq<char> {
    let head = strip_end(system, ';');
    let tail = strip_start(user, ';');
    if head.len() == 0 {
        tail
    } else if tail.len() == 0 {
        head
    } else {
        head + seq![';'] + tail
    }
}

pub open spec fn system_step(acc: Seq<EnvView>, e: EnvView) -> Seq<EnvView> {
    let k = key_of(e.name);
    if is_session_owned(k) {
        acc
    } else if has_key(acc, k) {
        acc.update(key_pos(acc, k), e)
    } else {
        acc.push(e)
    }
}

/// The machine scope on its own: later duplicates replace earlier ones in place.
pub open spec fn merge_system(s: Seq<EnvView>) -> Seq<EnvView>
    decreases s.len(),
{
    if s.len() == 0 {
        seq![]
    } else {
        system_step(merge_system(s.drop_last()), s.last())
    }
}

pub open spec fn user_entry(prev: EnvView, e: EnvView) -> EnvView {
    let value = if key_of(e.name) == path_key() && trim(prev.value).len() > 0 {
        spec_join_path(prev.value, e.value)
    } else {
        e.value
    };
    EnvView { name: e.name, value: value, expand: prev.expand || e.expand }
}

pub open spec fn user_step(acc: Seq<EnvView>, e: EnvView) -> Seq<EnvView> {
    let k = key_of(e.name);
    if has_key(acc, k) {
        let i = key_pos(acc, k);
        acc.update(i, user_entry(acc[i], e))
    } else {
        acc.push(e)
    }
}

/// The user scope laid over `base`.
pub open spec fn merge_user(base: Seq<EnvView>, u: Seq<EnvView>) -> Seq<EnvView>
    decreases u.len(),
{
    if u.len() == 0 {
        base
    } else {
        user_step(merge_user(base, u.drop_last()), u.last())
    }
}

/// Two-scope merge: user values override machine values, except `PATH`, whose
/// user part is appended to the machine part.
pub open spec fn spec_merge(system: Seq<EnvView>, user: Seq<EnvView>) -> Seq<EnvView> {
    merge_user(merge_system(system), user)
}

proof fn lemma_key_pos(acc: Seq<EnvView>, k: Seq<char>, i: int)
    requires
        unique_keys(acc),
        0 <= i < acc.len(),
        key_of(acc[i].name) == k,
    ensures
        has_key(acc, k),
        key_pos(acc, k) == i,
{
}

proof fn lemma_system_step_unique(acc: Seq<EnvView>, e: EnvView)
    requires
        unique_keys(acc),
    ensures
        unique_keys(system_step(acc, e)),
{
    let k = key_of(e.name);
    if !is_session_owned(k) && has_key(acc, k) {
        let p = key_pos(acc, k);
        assert(0 <= p < acc.len() && key_of(acc[p].name) == k);
    }
}

proof fn lemma_user_step_unique(acc: Seq<EnvView>, e: EnvView)
    requires
        unique_keys(acc),
    ensures
        unique_keys(user_step(acc, e)),
{
    let k = key_of(e.name);
    if has_key(acc, k) {
        let p = key_pos(acc, k);
        assert(0 <= p < acc.len() && key_of(acc[p].name) == k);
        assert(key_of(user_entry(acc[p], e).name) == k);
    }
}

proof fn lemma_merge_system_unique(s: Seq<EnvView>)
    ensures
        unique_keys(merge_system(s)),
    decreases s.len(),
{
    if s.len() > 0 {
        lemma_merge_system_unique(s.drop_last());
        lemma_system_step_unique(merge_system(s.drop_last()), s.last());
    }
}

proof fn lemma_merge_user_unique(base: Seq<EnvView>, u: Seq<EnvView>)
    requires
        unique_keys(base),
    ensures
        unique_keys(merge_user(base, u)),
    decreases u.len(),
{
    if u.len() > 0 {
        lemma_merge_user_unique(base, u.drop_last());
        lemma_user_step_unique(merge_user(base, u.drop_last()), u.last());
    }
}

/// Index of the entry whose key is `k`, if any.
fn find_key(keys: &Vec<Vec<char>>, k: &Vec<char>) -> (r: Option<usize>)
    ensures
        r matches Some(i) ==> i < keys@.len() && keys@[i as int]@ == k@,
        r is None ==> forall|i: int| 0 <= i < keys@.len() ==> keys@[i]@ != k@,
{
    for i in 0..keys.len()
        invariant
            forall|j: int| 0 <= j < i ==> keys@[j]@ != k@,
    {
        if chars_eq(&keys[i], k) {
            return Some(i);
        }
    }
    None
}

fn strip_end_chars(v: &[char], c: char) -> (r: Vec<char>)
    ensures
        r@ == strip_end(v@, c),
{
    let mut hi = v.len();
    assert(v@.subrange(0, hi as int) == v@);
    while hi > 0 && v[hi - 1] == c
        invariant
            hi <= v@.len(),
            strip_end(v@, c) == strip_end(v@.subrange(0, hi as int), c),
        decreases hi,
    {
        assert(v@.subrange(0, hi as int).drop_last() == v@.subrange(0, hi - 1));
        hi -= 1;
    }
    slice_chars(v, 0, hi)
}

fn strip_start_chars(v: &[char], c: char) -> (r: Vec<char>)
    ensures
        r@ == strip_start(v@, c),
{
    let mut lo: usize = 0;
    assert(v@.subrange(0, v@.len() as int) == v@);
    while lo < v.len() && v[lo] == c
        invariant
            lo <= v@.len(),
            strip_start(v@, c) == strip_start(v@.subrange(lo as int, v@.len() as int), c),
        decreases v@.len() - lo,
    {
        assert(v@.subrange(lo as int, v@.len() as int).drop_first() == v@.subrange(
            lo + 1,
            v@.len() as int,
        ));
        lo += 1;
    }
    slice_chars(v, lo, v.len())
}

/// Joins two `PATH` values with a single `;`.
fn join_path(system: &str, user: &str) -> (r: String)
    ensures
        r@ == spec_join_path(system@, user@),
{
    let s = chars_of(system);
    let u = chars_of(user);
    let head = strip_end_chars(&s, ';');
    let tail = strip_start_chars(&u, ';');
    if head.len() == 0 {
        string_of(&tail)
    } else if tail.len() == 0 {
        string_of(&head)
    } else {
        let mut out = head;
        out.push(';');
        extend_chars(&mut out, &tail);
        string_of(&out)
    }
}

fn is_session_key(k: &Vec<char>) -> (r: bool)
    ensures
        r == is_session_owned(k@),
{
    let temp = vec!['T', 'E', 'M', 'P'];
    let tmp = vec!['T', 'M', 'P'];
    assert(temp@ == seq!['T', 'E', 'M', 'P']);
    assert(tmp@ == seq!['T', 'M', 'P']);
    chars_eq(k, &temp) || chars_eq(k, &tmp)
}

fn is_path_key(k: &Vec<char>) -> (r: bool)
    ensures
        r == (k@ == path_key()),
{
    let path = vec!['P', 'A', 'T', 'H'];
    assert(path@ == path_key());
    chars_eq(k, &path)
}

/// Merges the machine and the user scope.
///
/// Same-named variables (case-insensitive) are overridden by the user value,
/// except `PATH`, whose user part is appended after the machine part; the
/// session temp variables are only taken from the user scope.
pub fn merge(system: &[EnvEntry], user: &[EnvEntry]) -> (r: Vec<EnvEntry>)
    ensures
        views(r@) == spec_merge(views(system@), views(user@)),
        unique_keys(views(r@)),
{
    let mut merged: Vec<EnvEntry> = Vec::new();
    let mut keys: Vec<Vec<char>> = Vec::new();
    let ghost sys = views(system@);
    let ghost usr = views(user@);
    for i in 0..system.len()
        invariant
            sys == views(system@),
            views(merged@) == merge_system(sys.take(i as int)),
            keys@.len() == merged@.len(),
            forall|j: int| 0 <= j < keys@.len() ==> keys@[j]@ == key_of(#[trigger] merged@[j].name@),
            unique_keys(views(merged@)),
    {
        let ghost acc = views(merged@);
        let e = &system[i];
        assert(sys.take(i + 1).drop_last() == sys.take(i as int));
        assert(sys.take(i + 1).last() == e@);
        let name = chars_of(e.name.as_str());
        let k = upper_chars(&name);
        if is_session_key(&k) {
        } else {
            match find_key(&keys, &k) {
                Some(p) => {
                    proof {
                        lemma_key_pos(acc, k@, p as int);
                    }
                    merged.set(p, copy_entry(e));
                    assert(views(merged@) == acc.update(p as int, e@));
                },
                None => {
                    assert(!has_key(acc, k@));
                    merged.push(copy_entry(e));
                    keys.push(k);
                    assert(views(merged@) == acc.push(e@));
                },
            }
        }
        proof {
            lemma_system_step_unique(acc, e@);
        }
    }
    assert(sys.take(system@.len() as int) == sys);
    let ghost base = views(merged@);
    for i in 0..user.len()
        invariant
            usr == views(user@),
            views(merged@) == merge_user(base, usr.take(i as int)),
            keys@.len() == merged@.len(),
            forall|j: int| 0 <= j < keys@.len() ==> keys@[j]@ == key_of(#[trigger] merged@[j].name@),
            unique_keys(views(merged@)),
    {
        let ghost acc = views(merged@);
        let e = &user[i];
        assert(usr.take(i + 1).drop_last() == usr.take(i as int));
        assert(usr.take(i + 1).last() == e@);
        let name = chars_of(e.name.as_str());
        let k = upper_chars(&name);
        match find_key(&keys, &k) {
            Some(p) => {
                proof {
                    lemma_key_pos(acc, k@, p as int);
                }
                let prev_value = chars_of(merged[p].value.as_str());
                let trimmed = trim_chars(&prev_value);
                let value = if is_path_key(&k) && trimmed.len() > 0 {
                    join_path(merged[p].value.as_str(), e.value.as_str())
                } else {
                    e.value.clone()
                };
                let expand = merged[p].expand || e.expand;
                let entry = EnvEntry { name: e.name.clone(), value, expand };
                assert(entry@ == user_entry(acc[p as int], e@));
                merged.set(p, entry);
                assert(views(merged@) == acc.update(p as int, user_entry(acc[p as int], e@)));
            },
            None => {
                assert(!has_key(acc, k@));
                merged.push(copy_entry(e));
                keys.push(k);
                assert(views(merged@) == acc.push(e@));
            },
        }
        proof {
            lemma_user_step_unique(acc, e@);
        }
    }
    assert(usr.take(user@.len() as int) == usr);
    merged
}

// ---------------------------------------------------------------------------
// Expanding `%REF%` references
// ---------------------------------------------------------------------------

/// Index of the first `c` in `s`, or -1.
pub open spec fn find_char(s: Seq<char>, c: char) -> int
    decreases s.len(),
{
    if s.len() == 0 {
        -1
    } else if s[0] == c {
        0
    } else {
        let r = find_char(s.drop_first(), c);
        if r < 0 {
            -1
        } else {
            r + 1
        }
    }
}

pub proof fn lemma_find_char(s: Seq<char>, c: char)
    ensures
        -1 <= find_char(s, c) < s.len(),
        find_char(s, c) >= 0 ==> s[find_char(s, c)] == c,
        forall|j: int| 0 <= j < s.len() && (find_char(s, c) < 0 || j < find_char(s, c)) ==> s[j] != c,
    decreases s.len(),
{
    if s.len() > 0 && s[0] != c {
        lemma_find_char(s.drop_first(), c);
        assert forall|j: int| 0 <= j < s.len() && (find_char(s, c) < 0 || j < find_char(s, c)) implies s[j] != c by {
            if j > 0 {
                assert(s[j] == s.drop_first()[j - 1]);
            }
        }
    }
}

/// A piece of a value: literal text, or a `%NAME%` reference.
pub enum Tok {
    Lit(Seq<char>),
    Ref(Seq<char>),
}

/// Splits a value into literal runs and `%NAME%` references, the way the
/// expansion scans it: an unmatched `%` or an empty `%%` is literal.
pub open spec fn tokenize(v: Seq<char>) -> Seq<Tok>
    decreases v.len(),
{
    let st = find_char(v, '%');
    if st < 0 {
        seq![Tok::Lit(v)]
    } else {
        proof {
            lemma_find_char(v, '%');
        }
        let after = v.skip(st + 1);
        let en = find_char(after, '%');
        if en > 0 {
            proof {
                lemma_find_char(after, '%');
            }
            seq![Tok::Lit(v.take(st)), Tok::Ref(after.take(en))] + tokenize(after.skip(en + 1))
        } else {
            seq![Tok::Lit(v.take(st)), Tok::Lit(seq!['%'])] + tokenize(after)
        }
    }
}

/// The names referenced by a token list, in order.
pub open spec fn refs(t: Seq<Tok>) -> Seq<Seq<char>>
    decreases t.len(),
{
    if t.len() == 0 {
        seq![]
    } else {
        match t[0] {
            Tok::Lit(_) => refs(t.drop_first()),
            Tok::Ref(n) => seq![n] + refs(t.drop_first()),
        }
    }
}

/// What one reference becomes: the resolved text, or the reference itself,
/// verbatim, when it could not be resolved.
pub open spec fn piece(n: Seq<char>, o: Option<Seq<char>>) -> Seq<char> {
    match o {
        Some(r) => r,
        None => seq!['%'] + n + seq!['%'],
    }
}

/// Token list rendered with the given resolution of each reference.
pub open spec fn render(t: Seq<Tok>, res: Seq<Option<Seq<char>>>) -> Seq<char>
    decreases t.len(),
{
    if t.len() == 0 {
        seq![]
    } else {
        match t[0] {
            Tok::Lit(s) => s + render(t.drop_first(), res),
            Tok::Ref(n) => piece(n, res[0]) + render(t.drop_first(), res.drop_first()),
        }
    }
}

/// `out` is `v` with every reference replaced by an answer that `rel` allows
/// for that name (`None` keeps the reference verbatim).
pub open spec fn expands_to(
    v: Seq<char>,
    out: Seq<char>,
    rel: spec_fn(Seq<char>, Option<Seq<char>>) -> bool,
) -> bool {
    exists|res: Seq<Option<Seq<char>>>| #[trigger] render(tokenize(v), res) == out && res.len() == refs(tokenize(v)).len() && forall|i: int|
        0 <= i < res.len() ==> rel(refs(tokenize(v))[i], res[i])
}

pub open spec fn opt_view(o: Option<String>) -> Option<Seq<char>> {
    match o {
        Some(s) => Some(s@),
        None => None,
    }
}

/// `lookup` may answer `o` when asked for `n`.
pub open spec fn lookup_gives<F: Fn(&str) -> Option<String>>(
    lookup: F,
    n: Seq<char>,
    o: Option<Seq<char>>,
) -> bool {
    exists|s: &str, r: Option<String>| s@ == n && #[trigger] call_ensures(lookup, (s,), r) && opt_view(r) == o
}

pub open spec fn answers_of<F: Fn(&str) -> Option<String>>(lookup: F) -> spec_fn(
    Seq<char>,
    Option<Seq<char>>,
) -> bool {
    |n: Seq<char>, o: Option<Seq<char>>| lookup_gives(lookup, n, o)
}

proof fn lemma_refs_concat(a: Seq<Tok>, b: Seq<Tok>)
    ensures
        refs(a + b) == refs(a) + refs(b),
    decreases a.len(),
{
    if a.len() == 0 {
        assert(a + b == b);
    } else {
        lemma_refs_concat(a.drop_first(), b);
        assert((a + b).drop_first() == a.drop_first() + b);
    }
}

proof fn lemma_render_concat(
    a: Seq<Tok>,
    b: Seq<Tok>,
    r1: Seq<Option<Seq<char>>>,
    r2: Seq<Option<Seq<char>>>,
)
    requires
        r1.len() == refs(a).len(),
    ensures
        render(a + b, r1 + r2) == render(a, r1) + render(b, r2),
    decreases a.len(),
{
    if a.len() == 0 {
        assert(a + b == b);
        assert(r1 + r2 == r2);
    } else {
        assert((a + b).drop_first() == a.drop_first() + b);
        match a[0] {
            Tok::Lit(s) => {
                lemma_render_concat(a.drop_first(), b, r1, r2);
            },
            Tok::Ref(n) => {
                assert((r1 + r2).drop_first() == r1.drop_first() + r2);
                lemma_render_concat(a.drop_first(), b, r1.drop_first(), r2);
            },
        }
    }
}

/// Position of the first `c` in `v`.
pub fn find_char_in(v: &[char], c: char) -> (r: Option<usize>)
    ensures
        match r {
            Some(j) => j < v@.len() && find_char(v@, c) == j,
            None => find_char(v@, c) == -1,
        },
{
    assert(v@.skip(0) == v@);
    find_from(v, 0, c)
}

/// Position of the first `c` at or after `from`.
fn find_from(v: &[char], from: usize, c: char) -> (r: Option<usize>)
    requires
        from <= v@.len(),
    ensures
        r matches Some(j) ==> from <= j < v@.len() && find_char(v@.skip(from as int), c) == j - from,
        r is None ==> find_char(v@.skip(from as int), c) == -1,
{
    let mut j = from;
    while j < v.len()
        invariant
            from <= j <= v@.len(),
            forall|k: int| from <= k < j ==> v@[k] != c,
        decreases v@.len() - j,
    {
        if v[j] == c {
            proof {
                let s = v@.skip(from as int);
                lemma_find_char(s, c);
                let f = find_char(s, c);
                if f < 0 || f > j - from {
                    assert(s[j - from] == c);
                } else if f < j - from {
                    assert(s[f] == v@[from + f]);
                }
            }
            return Some(j);
        }
        j += 1;
    }
    proof {
        let s = v@.skip(from as int);
        lemma_find_char(s, c);
        let f = find_char(s, c);
        if f >= 0 {
            assert(s[f] == v@[from + f]);
        }
    }
    None
}

/// One scanning step of the expansion, as `tokenize` unfolds it.
proof fn lemma_tokenize_step(v: Seq<char>, pos: int, st: int, en: int)
    requires
        0 <= pos <= st < v.len(),
        find_char(v.skip(pos), '%') == st - pos,
        en == find_char(v.skip(st + 1), '%'),
    ensures
        en > 0 ==> tokenize(v.skip(pos)) == seq![Tok::Lit(v.subrange(pos, st)), Tok::Ref(v.subrange(st + 1, st + 1 + en))] + tokenize(v.skip(st + 1 + en + 1)),
        en <= 0 ==> tokenize(v.skip(pos)) == seq![Tok::Lit(v.subrange(pos, st)), Tok::Lit(seq!['%'])] + tokenize(v.skip(st + 1)),
{
    let r = v.skip(pos);
    assert(r.take(st - pos) == v.subrange(pos, st));
    assert(r.skip(st - pos + 1) == v.skip(st + 1));
    lemma_find_char(v.skip(st + 1), '%');
    if en > 0 {
        assert(v.skip(st + 1).take(en) == v.subrange(st + 1, st + 1 + en));
        assert(v.skip(st + 1).skip(en + 1) == v.skip(st + 1 + en + 1));
    }
}

proof fn lemma_expand_start(v: Seq<char>)
    ensures
        tokenize(v) == seq![] + tokenize(v.skip(0)),
        render(seq![], seq![]) == Seq::<char>::empty(),
        refs(seq![]) == Seq::<Seq<char>>::empty(),
{
    assert(v.skip(0) == v);
    assert(seq![] + tokenize(v) == tokenize(v));
}

/// Replaces every `%NAME%` in `value` by `lookup(NAME)`.
///
/// Names the lookup does not know stay verbatim, as Windows leaves them; a
/// lone `%` or an empty `%%` is kept as it is.
pub fn expand<F: Fn(&str) -> Option<String>>(value: &str, lookup: F) -> (r: String)
    requires
        forall|s: &str| call_requires(lookup, (s,)),
    ensures
        expands_to(value@, r@, answers_of(lookup)),
{
    let v = chars_of(value);
    let ghost rel = answers_of(lookup);
    let mut out: Vec<char> = Vec::new();
    let mut pos: usize = 0;
    let ghost mut tp: Seq<Tok> = seq![];
    let ghost mut res: Seq<Option<Seq<char>>> = seq![];
    proof {
        lemma_expand_start(v@);
    }
    loop
        invariant
            v@ == value@,
            rel == answers_of(lookup),
            forall|s: &str| call_requires(lookup, (s,)),
            pos <= v@.len(),
            tokenize(v@) == tp + tokenize(v@.skip(pos as int)),
            out@ == render(tp, res),
            res.len() == refs(tp).len(),
            forall|i: int| 0 <= i < res.len() ==> rel(refs(tp)[i], res[i]),
        decreases v@.len() - pos,
    {
        match find_from(&v, pos, '%') {
            None => {
                let tail = slice_chars(&v, pos, v.len());
                let ghost t = seq![Tok::Lit(tail@)];
                proof {
                    assert(v@.skip(pos as int) == tail@);
                    assert(tokenize(v@.skip(pos as int)) == t);
                    lemma_render_concat(tp, t, res, seq![]);
                    lemma_refs_concat(tp, t);
                    assert(refs(t.drop_first()) == Seq::<Seq<char>>::empty());
                    assert(refs(t) == Seq::<Seq<char>>::empty());
                    assert(render(t.drop_first(), seq![]) == Seq::<char>::empty());
                    assert(render(t, seq![]) == tail@);
                    assert(res + seq![] == res);
                    assert(refs(tp + t) == refs(tp));
                }
                extend_chars(&mut out, &tail);
                let r = string_of(&out);
                proof {
                    assert(render(tokenize(value@), res) == r@);
                }
                return r;
            },
            Some(st) => {
                let head = slice_chars(&v, pos, st);
                extend_chars(&mut out, &head);
                proof {
                    lemma_find_char(v@.skip(pos as int), '%');
                    assert(v@.skip(pos as int)[st - pos] == v@[st as int]);
                }
                assert(v@[st as int] == '%');
                let n = v.len();
                assert(st < n);
                let en_opt = find_from(&v, st + 1, '%');
                let ghost en: int = match en_opt {
                    Some(e) => e - (st + 1),
                    None => -1,
                };
                proof {
                    lemma_tokenize_step(v@, pos as int, st as int, en);
                }
                match en_opt {
                    Some(e) if e > st + 1 => {
                        let name = slice_chars(&v, st + 1, e);
                        let name_s = string_of(&name);
                        proof {
                            lemma_find_char(v@.skip(st + 1), '%');
                            assert(v@.skip(st + 1)[e - (st + 1)] == v@[e as int]);
                        }
                        let answer = lookup(name_s.as_str());
                        let ghost t = seq![Tok::Lit(head@), Tok::Ref(name@)];
                        let ghost o = opt_view(answer);
                        match answer {
                            Some(text) => {
                                let tv = chars_of(text.as_str());
                                extend_chars(&mut out, &tv);
                            },
                            None => {
                                let raw = slice_chars(&v, st, e + 1);
                                assert(raw@ == seq!['%'] + name@ + seq!['%']);
                                extend_chars(&mut out, &raw);
                            },
                        }
                        proof {
                            assert(lookup_gives(lookup, name@, o));
                            lemma_render_concat(tp, t, res, seq![o]);
                            lemma_refs_concat(tp, t);
                            assert(t.drop_first().drop_first() == Seq::<Tok>::empty());
                            assert(refs(t.drop_first().drop_first()) == Seq::<Seq<char>>::empty());
                            assert(seq![name@] + Seq::<Seq<char>>::empty() == seq![name@]);
                            assert(refs(t.drop_first()) == seq![name@]);
                            assert(seq![o].drop_first() == Seq::<Option<Seq<char>>>::empty());
                            assert(render(t.drop_first().drop_first(), Seq::<Option<Seq<char>>>::empty()) == Seq::<char>::empty());
                            assert(piece(name@, o) + Seq::<char>::empty() == piece(name@, o));
                            assert(refs(t) == seq![name@]);
                            assert(render(t.drop_first(), seq![o]) == piece(name@, o));
                            assert(render(t, seq![o]) == head@ + piece(name@, o));
                            assert(tokenize(v@) == (tp + t) + tokenize(v@.skip(e + 1)));
                            let ghost old_refs = refs(tp);
                            assert(refs(tp + t) == old_refs.push(name@));
                            assert(res + seq![o] == res.push(o));
                            tp = tp + t;
                            res = res.push(o);
                        }
                        pos = e + 1;
                    },
                    _ => {
                        out.push('%');
                        let ghost t = seq![Tok::Lit(head@), Tok::Lit(seq!['%'])];
                        proof {
                            lemma_render_concat(tp, t, res, seq![]);
                            lemma_refs_concat(tp, t);
                            assert(t.drop_first().drop_first() == Seq::<Tok>::empty());
                            assert(refs(t.drop_first().drop_first()) == Seq::<Seq<char>>::empty());
                            assert(refs(t.drop_first()) == Seq::<Seq<char>>::empty());
                            assert(refs(t) == Seq::<Seq<char>>::empty());
                            assert(render(t.drop_first().drop_first(), seq![]) == Seq::<char>::empty());
                            assert(render(t.drop_first(), seq![]) == seq!['%']);
                            assert(render(t, seq![]) == head@ + seq!['%']);
                            assert(res + seq![] == res);
                            assert(tokenize(v@) == (tp + t) + tokenize(v@.skip(st + 1)));
                            tp = tp + t;
                        }
                        pos = st + 1;
                    },
                }
            },
        }
    }
}

/// The value stored for key `k`; with duplicates the last one counts.
pub open spec fn raw_lookup(es: Seq<EnvView>, k: Seq<char>) -> Option<Seq<char>>
    decreases es.len(),
{
    if es.len() == 0 {
        None
    } else if key_of(es.last().name) == k {
        Some(es.last().value)
    } else {
        raw_lookup(es.drop_last(), k)
    }
}

/// `o` is a possible resolution of reference `name` with `depth` levels
/// left: the registry entries come first (their own references expanded one
/// level shallower), the fallback lookup answers names the registry does not
/// hold, and at depth 0 nothing resolves.
pub open spec fn resolves<F: Fn(&str) -> Option<String>>(
    es: Seq<EnvView>,
    fallback: F,
    name: Seq<char>,
    depth: nat,
    o: Option<Seq<char>>,
) -> bool
    decreases depth, 0nat,
{
    if depth == 0 {
        o is None
    } else {
        match raw_lookup(es, key_of(name)) {
            Some(v) => o is Some && expands_at(es, fallback, v, o->0, (depth - 1) as nat),
            None => lookup_gives(fallback, name, o),
        }
    }
}

/// `out` is `v` with each reference resolved at `depth` (see [`resolves`]).
pub open spec fn expands_at<F: Fn(&str) -> Option<String>>(
    es: Seq<EnvView>,
    fallback: F,
    v: Seq<char>,
    out: Seq<char>,
    depth: nat,
) -> bool
    decreases depth, 1nat,
{
    exists|res: Seq<Option<Seq<char>>>| #[trigger] render(tokenize(v), res) == out && res.len() == refs(tokenize(v)).len() && forall|i: int|
        0 <= i < res.len() ==> resolves(es, fallback, refs(tokenize(v))[i], depth, res[i])
}

/// Index of the last entry whose key is `k`.
fn raw_find(entries: &[EnvEntry], k: &Vec<char>) -> (r: Option<usize>)
    ensures
        r matches Some(i) ==> i < entries@.len() && raw_lookup(views(entries@), k@) == Some(entries@[i as int].value@),
        r is None ==> raw_lookup(views(entries@), k@) is None,
{
    let ghost es = views(entries@);
    let mut i = entries.len();
    assert(es.take(i as int) == es);
    while i > 0
        invariant
            i <= entries@.len(),
            es == views(entries@),
            raw_lookup(es, k@) == raw_lookup(es.take(i as int), k@),
        decreases i,
    {
        let name = chars_of(entries[i - 1].name.as_str());
        let u = upper_chars(&name);
        assert(es.take(i as int).last() == entries@[i - 1]@);
        if chars_eq(&u, k) {
            return Some(i - 1);
        }
        assert(es.take(i as int).drop_last() == es.take(i - 1));
        i -= 1;
    }
    None
}

proof fn lemma_expands_to_at<F: Fn(&str) -> Option<String>>(
    es: Seq<EnvView>,
    fallback: F,
    v: Seq<char>,
    out: Seq<char>,
    depth: nat,
    rel: spec_fn(Seq<char>, Option<Seq<char>>) -> bool,
)
    requires
        expands_to(v, out, rel),
        forall|n: Seq<char>, o: Option<Seq<char>>| #[trigger] rel(n, o) ==> resolves(es, fallback, n, depth, o),
    ensures
        expands_at(es, fallback, v, out, depth),
{
    let res = choose|res: Seq<Option<Seq<char>>>| #[trigger] render(tokenize(v), res) == out && res.len() == refs(tokenize(v)).len() && forall|i: int|
        0 <= i < res.len() ==> rel(refs(tokenize(v))[i], res[i]);
    assert(forall|i: int| 0 <= i < res.len() ==> resolves(es, fallback, refs(tokenize(v))[i], depth, res[i]));
}

/// Resolves one reference: registry first (its value expanded in turn, one
/// level shallower), then the fallback lookup.
fn resolve_ref<F: Fn(&str) -> Option<String>>(
    name: &str,
    entries: &[EnvEntry],
    fallback: &F,
    depth: usize,
) -> (r: Option<String>)
    requires
        forall|s: &str| call_requires(*fallback, (s,)),
    ensures
        resolves(views(entries@), *fallback, name@, depth as nat, opt_view(r)),
    decreases depth,
{
    if depth == 0 {
        return None;
    }
    let n = chars_of(name);
    let k = upper_chars(&n);
    match raw_find(entries, &k) {
        Some(i) => {
            let d = depth - 1;
            let resolve = |m: &str| -> (o: Option<String>)
                requires
                    forall|s: &str| call_requires(*fallback, (s,)),
                ensures
                    resolves(views(entries@), *fallback, m@, d as nat, opt_view(o)),
                { resolve_ref(m, entries, fallback, d) };
            let out = expand(entries[i].value.as_str(), resolve);
            proof {
                let es = views(entries@);
                assert forall|m: Seq<char>, o: Option<Seq<char>>| #[trigger] answers_of(resolve)(m, o) implies resolves(es, *fallback, m, d as nat, o) by {
                    let (s, r) = choose|s: &str, r: Option<String>| s@ == m && #[trigger] call_ensures(resolve, (s,), r) && opt_view(r) == o;
                }
                lemma_expands_to_at(es, *fallback, entries@[i as int].value@, out@, d as nat, answers_of(resolve));
                assert(raw_lookup(es, key_of(name@)) == Some(entries@[i as int].value@));
                let dn: nat = depth as nat;
                assert((dn - 1) as nat == d as nat);
            }
            Some(out)
        },
        None => {
            let r = fallback(name);
            assert(call_ensures(*fallback, (name,), r));
            assert(lookup_gives(*fallback, name@, opt_view(r)));
            r
        },
    }
}

// ---------------------------------------------------------------------------
// The expanded value table
// ---------------------------------------------------------------------------

/// Final variable values keyed by normalised name; no key occurs twice.
pub type EnvMap = Vec<(String, String)>;

pub open spec fn map_view(m: Seq<(String, String)>) -> Seq<(Seq<char>, Seq<char>)> {
    m.map_values(|p: (String, String)| (p.0@, p.1@))
}

pub open spec fn distinct_keys(m: Seq<(Seq<char>, Seq<char>)>) -> bool {
    forall|i: int, j: int| 0 <= i < m.len() && 0 <= j < m.len() && i != j ==> m[i].0 != m[j].0
}

pub open spec fn map_has(m: Seq<(Seq<char>, Seq<char>)>, k: Seq<char>) -> bool {
    exists|i: int| 0 <= i < m.len() && m[i].0 == k
}

pub open spec fn map_pos(m: Seq<(Seq<char>, Seq<char>)>, k: Seq<char>) -> int {
    choose|i: int| 0 <= i < m.len() && m[i].0 == k
}

/// Inserting into a map: an existing key has its value replaced in place.
pub open spec fn put(
    m: Seq<(Seq<char>, Seq<char>)>,
    k: Seq<char>,
    v: Seq<char>,
) -> Seq<(Seq<char>, Seq<char>)> {
    if map_has(m, k) {
        m.update(map_pos(m, k), (k, v))
    } else {
        m.push((k, v))
    }
}

/// The map built from keys and values in order (later keys win).
pub open spec fn collect(ks: Seq<Seq<char>>, vs: Seq<Seq<char>>) -> Seq<(Seq<char>, Seq<char>)>
    decreases ks.len(),
{
    if ks.len() == 0 {
        seq![]
    } else {
        put(collect(ks.drop_last(), vs.drop_last()), ks.last(), vs.last())
    }
}

pub open spec fn entry_keys(es: Seq<EnvView>) -> Seq<Seq<char>> {
    es.map_values(|e: EnvView| key_of(e.name))
}

/// `vals[i]` is an acceptable final value of entry `i`: expanded (references
/// resolved through the table, then `fallback`) when the entry asks for it,
/// verbatim otherwise.
pub open spec fn final_values<F: Fn(&str) -> Option<String>>(
    es: Seq<EnvView>,
    fallback: F,
    vals: Seq<Seq<char>>,
) -> bool {
    &&& vals.len() == es.len()
    &&& forall|i: int|
        0 <= i < es.len() ==> (if es[i].expand {
            expands_at(es, fallback, es[i].value, #[trigger] vals[i], MAX_EXPAND_DEPTH as nat)
        } else {
            vals[i] == es[i].value
        })
}

/// Index of key `k` in a map under construction.
fn map_find(m: &Vec<(String, String)>, k: &Vec<char>) -> (r: Option<usize>)
    ensures
        r matches Some(i) ==> i < m@.len() && map_view(m@)[i as int].0 == k@,
        r is None ==> !map_has(map_view(m@), k@),
{
    for i in 0..m.len()
        invariant
            forall|j: int| 0 <= j < i ==> map_view(m@)[j].0 != k@,
    {
        let key = chars_of(m[i].0.as_str());
        if chars_eq(&key, k) {
            return Some(i);
        }
    }
    None
}

/// Final values of all variables: references are expanded (registry first,
/// then `fallback` for names the registry does not hold) only where the entry
/// asks for it.
pub fn expand_all<F: Fn(&str) -> Option<String>>(entries: &[EnvEntry], fallback: F) -> (r: EnvMap)
    requires
        forall|s: &str| call_requires(fallback, (s,)),
    ensures
        distinct_keys(map_view(r@)),
        exists|vals: Seq<Seq<char>>| final_values(views(entries@), fallback, vals) && map_view(r@) == #[trigger] collect(entry_keys(views(entries@)), vals),
{
    let ghost es = views(entries@);
    let ghost ks = entry_keys(es);
    let mut m: EnvMap = Vec::new();
    let ghost mut vals: Seq<Seq<char>> = seq![];
    for i in 0..entries.len()
        invariant
            es == views(entries@),
            ks == entry_keys(es),
            forall|s: &str| call_requires(fallback, (s,)),
            vals.len() == i,
            forall|j: int|
                0 <= j < i ==> (if es[j].expand {
                    expands_at(es, fallback, es[j].value, #[trigger] vals[j], MAX_EXPAND_DEPTH as nat)
                } else {
                    vals[j] == es[j].value
                }),
            map_view(m@) == collect(ks.take(i as int), vals),
            distinct_keys(map_view(m@)),
    {
        let e = &entries[i];
        let value = if e.expand {
            let fb = &fallback;
            let resolve = |m: &str| -> (o: Option<String>)
                requires
                    forall|s: &str| call_requires(*fb, (s,)),
                ensures
                    resolves(views(entries@), *fb, m@, MAX_EXPAND_DEPTH as nat, opt_view(o)),
                { resolve_ref(m, entries, fb, MAX_EXPAND_DEPTH) };
            let out = expand(e.value.as_str(), resolve);
            proof {
                assert forall|n: Seq<char>, o: Option<Seq<char>>| #[trigger] answers_of(resolve)(n, o) implies resolves(es, fallback, n, MAX_EXPAND_DEPTH as nat, o) by {
                    let (s, r) = choose|s: &str, r: Option<String>| s@ == n && #[trigger] call_ensures(resolve, (s,), r) && opt_view(r) == o;
                }
                lemma_expands_to_at(es, fallback, e.value@, out@, MAX_EXPAND_DEPTH as nat, answers_of(resolve));
            }
            out
        } else {
            e.value.clone()
        };
        let name = chars_of(e.name.as_str());
        let k = upper_chars(&name);
        let ghost mv = map_view(m@);
        assert(ks.take(i + 1).drop_last() == ks.take(i as int));
        assert(ks.take(i + 1).last() == k@);
        assert(vals.push(value@).drop_last() == vals);
        match map_find(&m, &k) {
            Some(p) => {
                let ks_s = string_of(&k);
                m.set(p, (ks_s, value));
                proof {
                    assert(map_has(mv, k@));
                    assert(map_pos(mv, k@) == p as int);
                    assert(map_view(m@) == mv.update(p as int, (k@, value@)));
                }
            },
            None => {
                let ks_s = string_of(&k);
                m.push((ks_s, value));
                assert(map_view(m@) == mv.push((k@, value@)));
            },
        }
        proof {
            vals = vals.push(value@);
        }
    }
    assert(ks.take(entries@.len() as int) == ks);
    m
}

/// What has to change in the process environment.
#[derive(Debug)]
pub struct EnvPlan {
    /// Variables to write (normalised name, value), ordered by name.
    pub set: Vec<(String, String)>,
    /// Normalised names of variables to delete, ordered.
    pub remove: Vec<String>,
}

impl EnvPlan {
    /// Nothing to change.
    pub fn is_empty(&self) -> (r: bool)
        ensures
            r == (self.set@.len() == 0 && self.remove@.len() == 0),
    {
        self.set.len() == 0 && self.remove.len() == 0
    }
}

pub open spec fn strictly_sorted(ks: Seq<Seq<char>>) -> bool {
    forall|i: int, j: int| 0 <= i < j < ks.len() ==> seq_lt(ks[i], ks[j])
}

pub open spec fn names_view(v: Seq<String>) -> Seq<Seq<char>> {
    v.map_values(|s: String| s@)
}

pub open spec fn pair_keys(m: Seq<(Seq<char>, Seq<char>)>) -> Seq<Seq<char>> {
    m.map_values(|p: (Seq<char>, Seq<char>)| p.0)
}

pub open spec fn kviews(v: Seq<Vec<char>>) -> Seq<Seq<char>> {
    v.map_values(|c: Vec<char>| c@)
}

/// Inserts `x` (whose key is `k`) into the ordered `out`, keeping `keys` (the
/// keys of `out`) strictly ordered.
fn insert_sorted<T>(out: &mut Vec<T>, keys: &mut Vec<Vec<char>>, x: T, k: Vec<char>)
    requires
        old(out)@.len() == old(keys)@.len(),
        strictly_sorted(kviews(old(keys)@)),
        forall|j: int| 0 <= j < old(keys)@.len() ==> old(keys)@[j]@ != k@,
    ensures
        final(out)@.len() == final(keys)@.len(),
        strictly_sorted(kviews(final(keys)@)),
        exists|p: int|
            0 <= p <= old(out)@.len() && final(out)@ == old(out)@.insert(p, x) && #[trigger] kviews(final(keys)@) == kviews(old(keys)@).insert(p, k@),
{
    let ghost ks0 = kviews(keys@);
    let mut p: usize = 0;
    while p < keys.len() && chars_lt(&keys[p], &k)
        invariant
            p <= keys@.len(),
            ks0 == kviews(keys@),
            forall|j: int| 0 <= j < p ==> seq_lt(ks0[j], k@),
        decreases keys@.len() - p,
    {
        p += 1;
    }
    proof {
        if p < keys@.len() {
            lemma_lt_total(ks0[p as int], k@);
            assert(seq_lt(k@, ks0[p as int]));
            assert forall|j: int| p <= j < ks0.len() implies seq_lt(k@, ks0[j]) by {
                if j > p {
                    lemma_lt_transitive(k@, ks0[p as int], ks0[j]);
                }
            }
        }
    }
    let ghost kv = k@;
    out.insert(p, x);
    keys.insert(p, k);
    proof {
        let ks1 = kviews(keys@);
        assert(ks1 == ks0.insert(p as int, kv));
        assert forall|i: int, j: int| 0 <= i < j < ks1.len() implies seq_lt(ks1[i], ks1[j]) by {
            if i < p && j == p {
            } else if i < p && j > p {
                assert(ks1[j] == ks0[j - 1]);
                lemma_lt_transitive(ks1[i], kv, ks1[j]);
            } else if i == p {
                assert(ks1[j] == ks0[j - 1]);
            } else if i > p {
                assert(ks1[i] == ks0[i - 1] && ks1[j] == ks0[j - 1]);
            } else {
                assert(ks1[i] == ks0[i] && ks1[j] == ks0[j]);
            }
        }
    }
}

/// Incremental synchronisation state: remembers which variables were written
/// last time, so that a variable the user deleted is removed too.
#[derive(Debug)]
pub struct EnvSync {
    synced: Vec<String>,
}

impl View for EnvSync {
    type V = Seq<Seq<char>>;

    closed spec fn view(&self) -> Seq<Seq<char>> {
        names_view(self.synced@)
    }
}

pub open spec fn distinct_names(ns: Seq<Seq<char>>) -> bool {
    forall|i: int, j: int| 0 <= i < ns.len() && 0 <= j < ns.len() && i != j ==> ns[i] != ns[j]
}

/// What a plan for `fresh` is, given the names `remembered` from the last
/// round: `set` holds `fresh`'s pairs ordered by name, `remove` the
/// remembered names `fresh` no longer has, ordered.
pub open spec fn plan_result(
    remembered: Seq<Seq<char>>,
    fresh: Seq<(Seq<char>, Seq<char>)>,
    set: Seq<(Seq<char>, Seq<char>)>,
    remove: Seq<Seq<char>>,
) -> bool {
    &&& strictly_sorted(pair_keys(set))
    &&& set.to_multiset() == fresh.to_multiset()
    &&& strictly_sorted(remove)
    &&& remove.to_multiset() == remembered.filter(|k: Seq<char>| !map_has(fresh, k)).to_multiset()
}

impl EnvSync {
    /// Each name is remembered once.
    #[verifier::type_invariant]
    spec fn names_distinct(self) -> bool {
        distinct_names(names_view(self.synced@))
    }

    /// Nothing synchronised yet.
    pub fn new() -> (r: EnvSync)
        ensures
            r@.len() == 0,
    {
        EnvSync { synced: Vec::new() }
    }

    /// The changes that align the process environment with `fresh`; remembers
    /// `fresh`'s names for the next round.
    ///
    /// `set` is `fresh` ordered by name; `remove` is every name written last
    /// round that `fresh` no longer holds, ordered.
    pub fn plan(&mut self, fresh: &EnvMap) -> (r: EnvPlan)
        requires
            distinct_keys(map_view(fresh@)),
        ensures
            plan_result(old(self)@, map_view(fresh@), map_view(r.set@), names_view(r.remove@)),
            final(self)@ == pair_keys(map_view(fresh@)),
    {
        proof {
            use_type_invariant(&*self);
        }
        let ghost fv = map_view(fresh@);
        // ---- the writes, ordered by name ----
        let mut set: Vec<(String, String)> = Vec::new();
        let mut set_keys: Vec<Vec<char>> = Vec::new();
        assert(map_view(set@) =~= seq![]);
        assert(fv.take(0) =~= seq![]);
        let mut i: usize = 0;
        while i < fresh.len()
            invariant
                i <= fresh@.len(),
                fv == map_view(fresh@),
                distinct_keys(fv),
                set@.len() == set_keys@.len(),
                strictly_sorted(kviews(set_keys@)),
                kviews(set_keys@) == pair_keys(map_view(set@)),
                map_view(set@).to_multiset() == fv.take(i as int).to_multiset(),
                forall|j: int| #![trigger set_keys@[j]] 0 <= j < set_keys@.len() ==> exists|t: int| 0 <= t < i && set_keys@[j]@ == #[trigger] fv[t].0,
            decreases fresh@.len() - i,
        {
            let k = chars_of(fresh[i].0.as_str());
            let pair = (fresh[i].0.clone(), fresh[i].1.clone());
            let ghost pv = (pair.0@, pair.1@);
            let ghost old_set = set@;
            assert forall|j: int| #![trigger set_keys@[j]] 0 <= j < set_keys@.len() implies set_keys@[j]@ != k@ by {
                let t = choose|t: int| 0 <= t < i && set_keys@[j]@ == #[trigger] fv[t].0;
                assert(fv[i as int].0 == k@);
            }
            insert_sorted(&mut set, &mut set_keys, pair, k);
            proof {
                let p = choose|p: int|
                    0 <= p <= old_set.len() && set@ == old_set.insert(p, (pair.0, pair.1)) && #[trigger] kviews(set_keys@) == pair_keys(map_view(old_set)).insert(p, fv[i as int].0);
                assert(map_view(set@) == map_view(old_set).insert(p, pv));
                assert(pair_keys(map_view(set@)) == pair_keys(map_view(old_set)).insert(p, fv[i as int].0));
                assert(fv.take(i + 1) == fv.take(i as int).push(fv[i as int]));
                assert(pv == fv[i as int]);
                assert forall|j: int| #![trigger set_keys@[j]] 0 <= j < set_keys@.len() implies exists|t: int| 0 <= t < i + 1 && set_keys@[j]@ == #[trigger] fv[t].0 by {
                    let ksv = kviews(set_keys@);
                    if j == p {
                        assert(ksv[j] == fv[i as int].0);
                    } else if j < p {
                        assert(ksv[j] == pair_keys(map_view(old_set))[j]);
                    } else {
                        assert(ksv[j] == pair_keys(map_view(old_set))[j - 1]);
                    }
                }
                vstd::seq_lib::to_multiset_insert(map_view(old_set), p, pv);
                vstd::seq_lib::to_multiset_build(fv.take(i as int), fv[i as int]);
            }
            i += 1;
        }
        assert(fv.take(fresh@.len() as int) == fv);
        // ---- the deletions: names written last time that are gone now ----
        let ghost old_synced = self@;
        let ghost gone = |k: Seq<char>| !map_has(fv, k);
        let mut cand: Vec<String> = Vec::new();
        let mut i: usize = 0;
        while i < self.synced.len()
            invariant
                i <= old_synced.len(),
                fv == map_view(fresh@),
                old_synced == names_view(self.synced@),
                gone == (|k: Seq<char>| !map_has(fv, k)),
                names_view(cand@) == old_synced.take(i as int).filter(gone),
                distinct_names(old_synced),
                distinct_names(names_view(cand@)),
                forall|j: int| #![trigger cand@[j]] 0 <= j < cand@.len() ==> exists|t: int| 0 <= t < i && names_view(cand@)[j] == #[trigger] old_synced[t],
            decreases old_synced.len() - i,
        {
            reveal_with_fuel(Seq::filter, 1);
            let name = chars_of(self.synced[i].as_str());
            let present = map_find(fresh, &name).is_some();
            assert(old_synced.take(i + 1).drop_last() == old_synced.take(i as int));
            let ghost before = names_view(cand@);
            if !present {
                cand.push(self.synced[i].clone());
                assert(names_view(cand@) == before.push(old_synced[i as int]));
                assert(names_view(cand@) == old_synced.take(i as int).filter(gone).push(old_synced[i as int]));
                assert forall|j: int| 0 <= j < before.len() implies before[j] != old_synced[i as int] by {
                    let t = choose|t: int| 0 <= t < i && before[j] == #[trigger] old_synced[t];
                }
                assert forall|j: int| #![trigger cand@[j]] 0 <= j < cand@.len() implies exists|t: int| 0 <= t < i + 1 && names_view(cand@)[j] == #[trigger] old_synced[t] by {
                    if j < before.len() {
                        let t = choose|t: int| 0 <= t < i && before[j] == #[trigger] old_synced[t];
                        assert(names_view(cand@)[j] == old_synced[t]);
                    } else {
                        assert(names_view(cand@)[j] == old_synced[i as int]);
                    }
                }
            }
            i += 1;
        }
        assert(old_synced.take(self.synced@.len() as int) == old_synced);
        let ghost cv = names_view(cand@);
        let mut remove: Vec<String> = Vec::new();
        let mut remove_keys: Vec<Vec<char>> = Vec::new();
        assert(names_view(remove@) =~= seq![]);
        assert(cv.take(0) =~= seq![]);
        let mut i: usize = 0;
        while i < cand.len()
            invariant
                i <= cv.len(),
                cv == names_view(cand@),
                distinct_names(cv),
                remove@.len() == remove_keys@.len(),
                strictly_sorted(kviews(remove_keys@)),
                kviews(remove_keys@) == names_view(remove@),
                names_view(remove@).to_multiset() == cv.take(i as int).to_multiset(),
                forall|j: int| #![trigger remove_keys@[j]] 0 <= j < remove_keys@.len() ==> exists|t: int| 0 <= t < i && remove_keys@[j]@ == #[trigger] cv[t],
            decreases cv.len() - i,
        {
            let k = chars_of(cand[i].as_str());
            let name = cand[i].clone();
            assert(k@ == cv[i as int]);
            let ghost old_rm = remove@;
            assert forall|j: int| #![trigger remove_keys@[j]] 0 <= j < remove_keys@.len() implies remove_keys@[j]@ != k@ by {
                let t = choose|t: int| 0 <= t < i && remove_keys@[j]@ == #[trigger] cv[t];
            }
            insert_sorted(&mut remove, &mut remove_keys, name, k);
            proof {
                let p = choose|p: int|
                    0 <= p <= old_rm.len() && remove@ == old_rm.insert(p, name) && #[trigger] kviews(remove_keys@) == names_view(old_rm).insert(p, cv[i as int]);
                assert(names_view(remove@) == names_view(old_rm).insert(p, cv[i as int]));
                assert(cv.take(i + 1) == cv.take(i as int).push(cv[i as int]));
                assert forall|j: int| #![trigger remove_keys@[j]] 0 <= j < remove_keys@.len() implies exists|t: int| 0 <= t < i + 1 && remove_keys@[j]@ == #[trigger] cv[t] by {
                    let ksv = kviews(remove_keys@);
                    if j == p {
                        assert(ksv[j] == cv[i as int]);
                    } else if j < p {
                        assert(ksv[j] == names_view(old_rm)[j]);
                    } else {
                        assert(ksv[j] == names_view(old_rm)[j - 1]);
                    }
                }
                vstd::seq_lib::to_multiset_insert(names_view(old_rm), p, cv[i as int]);
                vstd::seq_lib::to_multiset_build(cv.take(i as int), cv[i as int]);
            }
            i += 1;
        }
        assert(cv.take(cand@.len() as int) == cv);
        // ---- remember this round's names ----
        let mut next: Vec<String> = Vec::new();
        for i in 0..fresh.len()
            invariant
                fv == map_view(fresh@),
                names_view(next@) == pair_keys(fv.take(i as int)),
        {
            next.push(fresh[i].0.clone());
            assert(pair_keys(fv.take(i + 1)) == pair_keys(fv.take(i as int)).push(fv[i as int].0));
        }
        assert(fv.take(fresh@.len() as int) == fv);
        assert(distinct_names(names_view(next@)));
        self.synced = next;
        EnvPlan { set, remove }
    }
}

/// Planning the same environment twice in a row deletes nothing the second
/// time: the names remembered from the first round are all still present.
pub proof fn lemma_replan_removes_nothing(fresh: Seq<(Seq<char>, Seq<char>)>)
    ensures
        pair_keys(fresh).filter(|k: Seq<char>| !map_has(fresh, k)).len() == 0,
{
    let ks = pair_keys(fresh);
    let p = |k: Seq<char>| !map_has(fresh, k);
    ks.filter_lemma(p);
    if ks.filter(p).len() > 0 {
        let x = ks.filter(p)[0];
        assert(ks.filter(p).contains(x));
        ks.lemma_filter_contains_rev(p, x);
        let i = choose|i: int| 0 <= i < ks.len() && ks[i] == x;
        assert(fresh[i].0 == x);
        assert(map_has(fresh, x));
        assert(!p(x));
    }
}

/// Two sequences ordered strictly by a key, holding the same elements,
/// are the same sequence.
proof fn lemma_sorted_unique<A>(a: Seq<A>, b: Seq<A>, key: spec_fn(A) -> Seq<char>)
    requires
        forall|i: int, j: int| 0 <= i < j < a.len() ==> seq_lt(key(a[i]), key(a[j])),
        forall|i: int, j: int| 0 <= i < j < b.len() ==> seq_lt(key(b[i]), key(b[j])),
        a.to_multiset() == b.to_multiset(),
    ensures
        a == b,
    decreases a.len(),
{
    broadcast use vstd::seq_lib::group_to_multiset_ensures;

    if a.len() == 0 {
        assert(b.to_multiset().len() == 0);
        assert(b =~= a);
    } else {
        let x = a[0];
        assert(a.to_multiset().count(x) > 0) by {
            assert(a.contains(x));
        }
        assert(b.contains(x));
        let j = choose|j: int| 0 <= j < b.len() && b[j] == x;
        let y = b[0];
        assert(b.to_multiset().count(y) > 0) by {
            assert(b.contains(y));
        }
        assert(a.contains(y));
        let i = choose|i: int| 0 <= i < a.len() && a[i] == y;
        if i > 0 && j > 0 {
            assert(seq_lt(key(x), key(y)));
            assert(seq_lt(key(y), key(x)));
            crate::text::lemma_lt_transitive(key(x), key(y), key(x));
            crate::text::lemma_lt_irreflexive(key(x));
        }
        assert(x == y);
        let a1 = a.drop_first();
        let b1 = b.drop_first();
        assert(a.remove(0) =~= a1);
        assert(b.remove(0) =~= b1);
        assert(a1.to_multiset() == a.to_multiset().remove(x));
        assert(b1.to_multiset() == b.to_multiset().remove(y));
        assert forall|i: int, j: int| 0 <= i < j < a1.len() implies seq_lt(key(a1[i]), key(a1[j])) by {
            assert(a1[i] == a[i + 1] && a1[j] == a[j + 1]);
        }
        assert forall|i: int, j: int| 0 <= i < j < b1.len() implies seq_lt(key(b1[i]), key(b1[j])) by {
            assert(b1[i] == b[i + 1] && b1[j] == b[j + 1]);
        }
        lemma_sorted_unique(a1, b1, key);
        assert(a =~= seq![x] + a1);
        assert(b =~= seq![y] + b1);
    }
}

/// A plan is determined by the remembered names and the fresh map: its
/// writes are exactly the fresh pairs in name order, its deletions exactly
/// the remembered names that are gone, in order.
pub proof fn lemma_plan_determined(
    remembered: Seq<Seq<char>>,
    fresh: Seq<(Seq<char>, Seq<char>)>,
    set1: Seq<(Seq<char>, Seq<char>)>,
    remove1: Seq<Seq<char>>,
    set2: Seq<(Seq<char>, Seq<char>)>,
    remove2: Seq<Seq<char>>,
)
    requires
        plan_result(remembered, fresh, set1, remove1),
        plan_result(remembered, fresh, set2, remove2),
    ensures
        set1 == set2,
        remove1 == remove2,
{
    let pk = |p: (Seq<char>, Seq<char>)| p.0;
    assert forall|i: int, j: int| 0 <= i < j < set1.len() implies seq_lt(pk(set1[i]), pk(set1[j])) by {
        assert(pair_keys(set1)[i] == set1[i].0 && pair_keys(set1)[j] == set1[j].0);
    }
    assert forall|i: int, j: int| 0 <= i < j < set2.len() implies seq_lt(pk(set2[i]), pk(set2[j])) by {
        assert(pair_keys(set2)[i] == set2[i].0 && pair_keys(set2)[j] == set2[j].0);
    }
    lemma_sorted_unique(set1, set2, pk);
    let id = |k: Seq<char>| k;
    lemma_sorted_unique(remove1, remove2, id);
}

/// The first plan after `EnvSync::new` (nothing remembered) deletes nothing.
pub proof fn lemma_first_plan_removes_nothing(
    fresh: Seq<(Seq<char>, Seq<char>)>,
    set: Seq<(Seq<char>, Seq<char>)>,
    remove: Seq<Seq<char>>,
)
    requires
        plan_result(Seq::empty(), fresh, set, remove),
    ensures
        remove.len() == 0,
{
    broadcast use vstd::seq_lib::group_to_multiset_ensures;

    let p = |k: Seq<char>| !map_has(fresh, k);
    reveal_with_fuel(Seq::<_>::filter, 1);
    assert(Seq::<Seq<char>>::empty().filter(p) =~= Seq::<Seq<char>>::empty());
    assert(remove.to_multiset().len() == 0);
}

/// Two plans in a row for the same map: after the first, the names
/// remembered are the map's own, so the second writes the same pairs again
/// and deletes nothing, whatever the first had to delete.
pub proof fn lemma_repeated_plan(
    remembered: Seq<Seq<char>>,
    fresh: Seq<(Seq<char>, Seq<char>)>,
    set1: Seq<(Seq<char>, Seq<char>)>,
    remove1: Seq<Seq<char>>,
    after_first: Seq<Seq<char>>,
    set2: Seq<(Seq<char>, Seq<char>)>,
    remove2: Seq<Seq<char>>,
)
    requires
        plan_result(remembered, fresh, set1, remove1),
        after_first == pair_keys(fresh),
        plan_result(after_first, fresh, set2, remove2),
    ensures
        set2 == set1,
        remove2.len() == 0,
{
    broadcast use vstd::seq_lib::group_to_multiset_ensures;

    let pk = |p: (Seq<char>, Seq<char>)| p.0;
    assert forall|i: int, j: int| 0 <= i < j < set1.len() implies seq_lt(pk(set1[i]), pk(set1[j])) by {
        assert(pair_keys(set1)[i] == set1[i].0 && pair_keys(set1)[j] == set1[j].0);
    }
    assert forall|i: int, j: int| 0 <= i < j < set2.len() implies seq_lt(pk(set2[i]), pk(set2[j])) by {
        assert(pair_keys(set2)[i] == set2[i].0 && pair_keys(set2)[j] == set2[j].0);
    }
    lemma_sorted_unique(set2, set1, pk);
    lemma_replan_removes_nothing(fresh);
    let p = |k: Seq<char>| !map_has(fresh, k);
    assert(pair_keys(fresh).filter(p) =~= Seq::<Seq<char>>::empty());
    assert(remove2.to_multiset().len() == 0);
}

} // verus!
