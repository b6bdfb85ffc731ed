//! Query parsing and the pinyin index behind the search.
//!
//! Three query modes: by name (default, matching names, full pinyin and pinyin
//! initials), by tag (`t: xxx`) and by initials (`i: a b c`).

use vstd::prelude::*;
use pinyin::ToPinyin;
use crate::apps::{AppInfo, AppRegistry, AppView, apps_view, names_of};
use crate::config::{SearchConfig, spec_filtered};
use crate::fuzzy::{Score, better, fuzzy_score, score_gt, spec_fuzzy};
use crate::rank::{rank_order, ranks_before};
use crate::text::{
    chars_eq, chars_of, extend_chars, is_whitespace, lower_char, slice_chars, spec_is_whitespace,
    spec_to_lowercase, starts_with, string_of, to_lowercase, trim, trim_chars, trim_end, trim_start,
};

verus! {

/// Upper bound on the number of results shown.
pub const MAX_RESULTS: usize = 30;

/// The plain (toneless) pinyin of a character, as the `pinyin` crate's data
/// gives it; `None` for characters without pinyin.
pub uninterp spec fn pinyin_plain(c: char) -> Option<Seq<char>>;

/// Calls `pinyin::ToPinyin::to_pinyin` on `c` and `Pinyin::plain` on the
/// result. The contract names the result; besides, the crate's data starts at
/// U+3007, so ASCII characters have no pinyin, and no entry of the data has
/// an empty pinyin (an empty one is stored as "no pinyin").
#[verifier::external_body]
fn char_pinyin_plain(c: char) -> (r: Option<String>)
    ensures
        match r {
            Some(s) => pinyin_plain(c) == Some(s@),
            None => pinyin_plain(c) is None,
        },
        (c as u32) < 0x80 ==> r is None,
        r matches Some(s) ==> s@.len() > 0,
{
    match c.to_pinyin() {
        Some(p) => Some(p.plain().to_string()),
        None => None,
    }
}

/// Calls `pinyin::ToPinyin::to_pinyin` on `c` and `Pinyin::first_letter` on
/// the result, which the crate's source computes as the first character of the
/// (never empty) plain pinyin; ASCII characters have none.
#[verifier::external_body]
fn char_pinyin_first_letter(c: char) -> (r: Option<String>)
    ensures
        match r {
            Some(s) => pinyin_plain(c) is Some && s@ == pinyin_plain(c)->0.take(1),
            None => pinyin_plain(c) is None,
        },
        (c as u32) < 0x80 ==> r is None,
        r matches Some(s) ==> s@.len() == 1 && pinyin_plain(c)->0.len() > 0,
{
    match c.to_pinyin() {
        Some(p) => Some(p.first_letter().to_string()),
        None => None,
    }
}

/// Full pinyin of a name: each character with pinyin replaced by its plain
/// pinyin, every other character kept.
pub open spec fn spec_pinyin_full(name: Seq<char>) -> Seq<char>
    decreases name.len(),
{
    if name.len() == 0 {
        seq![]
    } else {
        spec_pinyin_full(name.drop_last()) + match pinyin_plain(name.last()) {
            Some(p) => p,
            None => seq![name.last()],
        }
    }
}

/// Pinyin initials of a name: the first letter of each character's pinyin,
/// other characters in ASCII lower case.
pub open spec fn spec_pinyin_initials(name: Seq<char>) -> Seq<char>
    decreases name.len(),
{
    if name.len() == 0 {
        seq![]
    } else {
        spec_pinyin_initials(name.drop_last()) + match pinyin_plain(name.last()) {
            Some(p) => p.take(1),
            None => seq![lower_char(name.last())],
        }
    }
}

/// The full pinyin of `name` (no tones); characters without pinyin are kept.
pub fn to_pinyin_full(name: &str) -> (r: String)
    ensures
        forall|i: int| 0 <= i < name@.len() && (#[trigger] name@[i] as u32) < 0x80 ==> pinyin_plain(name@[i]) is None,
        forall|i: int| 0 <= i < name@.len() ==> (#[trigger] pinyin_plain(name@[i]) matches Some(p) ==> p.len() > 0),
        r@ == spec_pinyin_full(name@),
{
    let v = chars_of(name);
    let mut out: Vec<char> = Vec::new();
    for i in 0..v.len()
        invariant
            out@ == spec_pinyin_full(v@.take(i as int)),
            forall|j: int| 0 <= j < i && (#[trigger] v@[j] as u32) < 0x80 ==> pinyin_plain(v@[j]) is None,
            forall|j: int| 0 <= j < i ==> (#[trigger] pinyin_plain(v@[j]) matches Some(p) ==> p.len() > 0),
    {
        assert(v@.take(i + 1).drop_last() == v@.take(i as int));
        match char_pinyin_plain(v[i]) {
            Some(p) => {
                let pv = chars_of(p.as_str());
                extend_chars(&mut out, &pv);
            },
            None => {
                out.push(v[i]);
            },
        }
    }
    assert(v@.take(v@.len() as int) == v@);
    string_of(&out)
}

/// The pinyin initials of `name`; other characters in ASCII lower case.
pub fn to_pinyin_initials(name: &str) -> (r: String)
    ensures
        forall|i: int| 0 <= i < name@.len() && (#[trigger] name@[i] as u32) < 0x80 ==> pinyin_plain(name@[i]) is None,
        forall|i: int| 0 <= i < name@.len() ==> (#[trigger] pinyin_plain(name@[i]) matches Some(p) ==> p.len() > 0),
        r@ == spec_pinyin_initials(name@),
{
    let v = chars_of(name);
    let mut out: Vec<char> = Vec::new();
    for i in 0..v.len()
        invariant
            out@ == spec_pinyin_initials(v@.take(i as int)),
            forall|j: int| 0 <= j < i && (#[trigger] v@[j] as u32) < 0x80 ==> pinyin_plain(v@[j]) is None,
            forall|j: int| 0 <= j < i ==> (#[trigger] pinyin_plain(v@[j]) matches Some(p) ==> p.len() > 0),
    {
        assert(v@.take(i + 1).drop_last() == v@.take(i as int));
        match char_pinyin_first_letter(v[i]) {
            Some(p) => {
                let pv = chars_of(p.as_str());
                extend_chars(&mut out, &pv);
            },
            None => {
                out.push(crate::text::char_lower(v[i]));
            },
        }
    }
    assert(v@.take(v@.len() as int) == v@);
    string_of(&out)
}

/// Search mode of a query.
#[derive(Debug, Clone, Copy, PartialEq, Eq, Structural)]
pub enum SearchMode {
    /// Fuzzy match on the name (and its pinyin).
    Name,
    /// Match on tags (`t:` prefix).
    Tag,
    /// Match on pinyin initials (`i:` prefix).
    Initial,
}

/// A parsed query.
#[derive(Debug, Clone)]
pub struct ParsedQuery {
    pub mode: SearchMode,
    /// The keywords, prefix removed.
    pub keywords: String,
    /// In initials mode: the first character of each word.
    pub initials: Vec<char>,
}

/// First characters of the whitespace-separated words of `s`, scanning from
/// `in_word` state.
pub open spec fn initials_from(s: Seq<char>, in_word: bool) -> Seq<char>
    decreases s.len(),
{
    if s.len() == 0 {
        seq![]
    } else if spec_is_whitespace(s[0]) {
        initials_from(s.drop_first(), false)
    } else if in_word {
        initials_from(s.drop_first(), true)
    } else {
        seq![s[0]] + initials_from(s.drop_first(), true)
    }
}

/// First characters of the words of `s` (std `split_whitespace`).
pub open spec fn word_initials(s: Seq<char>) -> Seq<char> {
    initials_from(s, false)
}

pub open spec fn tag_prefix(s: Seq<char>) -> bool {
    crate::text::is_prefix(seq!['t', ':'], s) || crate::text::is_prefix(seq!['T', ':'], s)
}

pub open spec fn initial_prefix(s: Seq<char>) -> bool {
    crate::text::is_prefix(seq!['i', ':'], s) || crate::text::is_prefix(seq!['I', ':'], s)
}

/// The mode a query text selects.
pub open spec fn spec_mode(input: Seq<char>) -> SearchMode {
    let t = trim(input);
    if tag_prefix(t) {
        SearchMode::Tag
    } else if initial_prefix(t) {
        SearchMode::Initial
    } else {
        SearchMode::Name
    }
}

/// The keywords a query text carries.
pub open spec fn spec_keywords(input: Seq<char>) -> Seq<char> {
    let t = trim(input);
    if tag_prefix(t) || initial_prefix(t) {
        trim(t.skip(2))
    } else {
        t
    }
}

/// The initials a query text lists (initials mode only).
pub open spec fn spec_initials(input: Seq<char>) -> Seq<char> {
    let t = trim(input);
    if !tag_prefix(t) && initial_prefix(t) {
        word_initials(t.skip(2))
    } else {
        seq![]
    }
}

fn word_initials_of(v: &[char]) -> (r: Vec<char>)
    ensures
        r@ == word_initials(v@),
{
    let mut out: Vec<char> = Vec::new();
    let mut in_word = false;
    let mut i: usize = 0;
    assert(v@.skip(0) == v@);
    assert(out@ + initials_from(v@.skip(0), false) == word_initials(v@));
    while i < v.len()
        invariant
            i <= v@.len(),
            out@ + initials_from(v@.skip(i as int), in_word) == word_initials(v@),
        decreases v@.len() - i,
    {
        let c = v[i];
        let ghost rest = v@.skip(i as int);
        assert(rest[0] == c);
        assert(rest.drop_first() == v@.skip(i + 1));
        if is_whitespace(c) {
            in_word = false;
        } else if in_word {
        } else {
            proof {
                assert(seq![c] + initials_from(rest.drop_first(), true) == initials_from(rest, false));
                assert(out@.push(c) + initials_from(rest.drop_first(), true) == out@ + (seq![c] + initials_from(rest.drop_first(), true)));
            }
            out.push(c);
            in_word = true;
        }
        i += 1;
    }
    assert(out@ + Seq::<char>::empty() == out@);
    out
}

impl ParsedQuery {
    /// Parses a query: `t:`/`T:` selects tags, `i:`/`I:` initials, anything
    /// else is a name query; surrounding whitespace is ignored.
    pub fn parse(input: &str) -> (r: ParsedQuery)
        ensures
            r.mode == spec_mode(input@),
            r.keywords@ == spec_keywords(input@),
            r.initials@ == spec_initials(input@),
    {
        let v = chars_of(input);
        let t = trim_chars(&v);
        let tl = vec!['t', ':'];
        let tu = vec!['T', ':'];
        let il = vec!['i', ':'];
        let iu = vec!['I', ':'];
        assert(tl@ == seq!['t', ':'] && tu@ == seq!['T', ':']);
        assert(il@ == seq!['i', ':'] && iu@ == seq!['I', ':']);
        if starts_with(&t, &tl) || starts_with(&t, &tu) {
            let rest = slice_chars(&t, 2, t.len());
            let kw = trim_chars(&rest);
            return ParsedQuery { mode: SearchMode::Tag, keywords: string_of(&kw), initials: Vec::new() };
        }
        if starts_with(&t, &il) || starts_with(&t, &iu) {
            let rest = slice_chars(&t, 2, t.len());
            let kw = trim_chars(&rest);
            let initials = word_initials_of(&rest);
            return ParsedQuery { mode: SearchMode::Initial, keywords: string_of(&kw), initials };
        }
        ParsedQuery { mode: SearchMode::Name, keywords: string_of(&t), initials: Vec::new() }
    }

    /// No keywords.
    pub fn is_empty(&self) -> (r: bool)
        ensures
            r == (self.keywords@.len() == 0),
    {
        self.keywords.as_str().is_empty()
    }
}

/// The mode of a query (only name queries mix in calculator, web and commands).
pub fn query_mode(input: &str) -> (r: SearchMode)
    ensures
        r == spec_mode(input@),
{
    ParsedQuery::parse(input).mode
}

/// Pinyin cache: application name to full pinyin and pinyin initials.
#[derive(Debug, Default)]
pub struct PinyinIndex {
    /// (name, full pinyin, initials); each name once.
    entries: Vec<(String, String, String)>,
}

pub open spec fn entry_names(e: Seq<(String, String, String)>) -> Seq<Seq<char>> {
    e.map_values(|x: (String, String, String)| x.0@)
}

impl View for PinyinIndex {
    type V = Set<Seq<char>>;

    /// The indexed names.
    closed spec fn view(&self) -> Set<Seq<char>> {
        entry_names(self.entries@).to_set()
    }
}

impl PinyinIndex {
    #[verifier::type_invariant]
    spec fn well_formed(self) -> bool {
        &&& forall|i: int, j: int|
            0 <= i < self.entries@.len() && 0 <= j < self.entries@.len() && i != j
                ==> self.entries@[i].0@ != self.entries@[j].0@
        &&& forall|i: int|
            0 <= i < self.entries@.len() ==> #[trigger] self.entries@[i].1@ == spec_pinyin_full(self.entries@[i].0@)
        &&& forall|i: int|
            0 <= i < self.entries@.len() ==> #[trigger] self.entries@[i].2@ == spec_pinyin_initials(self.entries@[i].0@)
    }

    /// An empty index.
    pub fn new() -> (r: PinyinIndex)
        ensures
            r@ == Set::<Seq<char>>::empty(),
    {
        let r = PinyinIndex { entries: Vec::new() };
        assert(entry_names(r.entries@).to_set() =~= Set::<Seq<char>>::empty());
        r
    }

    fn position(&self, name: &str) -> (r: Option<usize>)
        ensures
            match r {
                Some(i) => i < self.entries@.len() && self.entries@[i as int].0@ == name@,
                None => !self@.contains(name@),
            },
    {
        for i in 0..self.entries.len()
            invariant
                forall|j: int| 0 <= j < i ==> self.entries@[j].0@ != name@,
        {
            if crate::apps::str_eq(self.entries[i].0.as_str(), name) {
                return Some(i);
            }
        }
        proof {
            if self@.contains(name@) {
                let j = choose|j: int| 0 <= j < entry_names(self.entries@).len() && entry_names(self.entries@)[j] == name@;
                assert(self.entries@[j].0@ == name@);
            }
        }
        None
    }

    /// Rebuilds the index for the given applications.
    pub fn rebuild(&mut self, apps: &[AppInfo])
        ensures
            final(self)@ == names_of(apps_view(apps@)).to_set(),
    {
        let ghost ns = names_of(apps_view(apps@));
        self.entries = Vec::new();
        for i in 0..apps.len()
            invariant
                ns == names_of(apps_view(apps@)),
                self@ == ns.take(i as int).to_set(),
        {
            let name = apps[i].name.as_str();
            assert(ns[i as int] == name@);
            assert(ns.take(i + 1) == ns.take(i as int).push(name@));
            proof {
                ns.take(i as int).lemma_push_to_set_commute(name@);
            }
            match self.position(name) {
                Some(p) => {
                    assert(entry_names(self.entries@)[p as int] == name@);
                    assert(self@.contains(name@));
                    assert(self@.insert(name@) =~= self@);
                },
                None => {
                    let full = to_pinyin_full(name);
                    let init = to_pinyin_initials(name);
                    let entry = (name.to_string(), full, init);
                    let ghost before = self.entries@;
                    proof {
                        use_type_invariant(&*self);
                    }
                    let mut es = Vec::new();
                    std::mem::swap(&mut es, &mut self.entries);
                    es.push(entry);
                    assert(entry_names(es@) == entry_names(before).push(name@));
                    proof {
                        entry_names(before).lemma_push_to_set_commute(name@);
                        assert forall|a: int, b: int| 0 <= a < es@.len() && 0 <= b < es@.len() && a != b implies es@[a].0@ != es@[b].0@ by {
                            if a == before.len() as int && b < before.len() {
                                assert(entry_names(before)[b] == es@[b].0@);
                                assert(entry_names(before).to_set().contains(es@[b].0@));
                            } else if b == before.len() as int && a < before.len() {
                                assert(entry_names(before)[a] == es@[a].0@);
                                assert(entry_names(before).to_set().contains(es@[a].0@));
                            }
                        }
                    }
                    self.entries = es;
                },
            }
        }
        assert(ns.take(apps@.len() as int) == ns);
    }

    /// The full pinyin of an indexed name; empty for other names.
    pub fn get_full(&self, name: &str) -> (r: &str)
        ensures
            r@ == if self@.contains(name@) { spec_pinyin_full(name@) } else { Seq::<char>::empty() },
    {
        proof {
            use_type_invariant(self);
        }
        match self.position(name) {
            Some(i) => {
                assert(self.entries@[i as int].1@ == spec_pinyin_full(self.entries@[i as int].0@));
                assert(self@.contains(name@)) by {
                    assert(entry_names(self.entries@)[i as int] == name@);
                }
                self.entries[i].1.as_str()
            },
            None => {
                proof {
                    reveal_strlit("");
                }
                ""
            },
        }
    }

    /// The pinyin initials of an indexed name; empty for other names.
    pub fn get_initials(&self, name: &str) -> (r: &str)
        ensures
            r@ == if self@.contains(name@) { spec_pinyin_initials(name@) } else { Seq::<char>::empty() },
    {
        proof {
            use_type_invariant(self);
        }
        match self.position(name) {
            Some(i) => {
                assert(self.entries@[i as int].2@ == spec_pinyin_initials(self.entries@[i as int].0@));
                assert(self@.contains(name@)) by {
                    assert(entry_names(self.entries@)[i as int] == name@);
                }
                self.entries[i].2.as_str()
            },
            None => {
                proof {
                    reveal_strlit("");
                }
                ""
            },
        }
    }
}

/// The search engine: the pinyin index over the registered applications.
#[derive(Debug, Default)]
pub struct SearchEngine {
    pub pinyin: PinyinIndex,
}

impl SearchEngine {
    /// An engine with an empty index.
    pub fn new() -> (r: SearchEngine)
        ensures
            r.pinyin@ == Set::<Seq<char>>::empty(),
    {
        SearchEngine { pinyin: PinyinIndex::new() }
    }

    /// Re-indexes after the registry changed.
    pub fn sync(&mut self, apps: &[AppInfo])
        ensures
            final(self).pinyin@ == names_of(apps_view(apps@)).to_set(),
    {
        self.pinyin.rebuild(apps);
    }
}

/// Score of a tag match.
pub const TAG_SCORE: u128 = 60;

/// Score of an initials match.
pub const INITIALS_SCORE: u128 = 70;

/// The full pinyin the index holds for `name` (empty when not indexed).
pub open spec fn indexed_full(idx: Set<Seq<char>>, name: Seq<char>) -> Seq<char> {
    if idx.contains(name) {
        spec_pinyin_full(name)
    } else {
        Seq::empty()
    }
}

/// The pinyin initials the index holds for `name` (empty when not indexed).
pub open spec fn indexed_initials(idx: Set<Seq<char>>, name: Seq<char>) -> Seq<char> {
    if idx.contains(name) {
        spec_pinyin_initials(name)
    } else {
        Seq::empty()
    }
}

/// The better of two optional scores (the first when worth the same).
pub open spec fn keep_better(acc: Option<Score>, c: Option<Score>) -> Option<Score> {
    match (acc, c) {
        (Some(a), Some(b)) => Some(
            if score_gt(b, a) {
                b
            } else {
                a
            },
        ),
        (None, _) => c,
        (_, None) => acc,
    }
}

/// A fuzzy match against a target that is skipped when empty.
pub open spec fn match_nonempty(q: Seq<char>, t: Seq<char>) -> Option<Score> {
    if t.len() > 0 {
        spec_fuzzy(q, t)
    } else {
        None
    }
}

/// Name mode: the best of the matches on the lower-cased name, its full
/// pinyin and its pinyin initials.
pub open spec fn name_score(idx: Set<Seq<char>>, name: Seq<char>, q: Seq<char>) -> Option<Score> {
    keep_better(
        keep_better(
            spec_fuzzy(q, spec_to_lowercase(name)),
            match_nonempty(q, spec_to_lowercase(indexed_full(idx, name))),
        ),
        match_nonempty(q, spec_to_lowercase(indexed_initials(idx, name))),
    )
}

/// Tag mode: some lower-cased tag matches.
pub open spec fn tag_hit(q: Seq<char>, tags: Seq<Seq<char>>) -> bool {
    exists|k: int| 0 <= k < tags.len() && (#[trigger] spec_fuzzy(q, spec_to_lowercase(tags[k]))) is Some
}

/// Initials mode: every listed initial (ASCII lower-cased) occurs in the
/// name's initials.
pub open spec fn initials_hit(listed: Seq<char>, ini: Seq<char>) -> bool {
    forall|k: int| 0 <= k < listed.len() ==> ini.contains(lower_char(#[trigger] listed[k]))
}

/// How well application `app` answers a query of the given mode, keywords
/// and initials; `None` when it does not.
pub open spec fn spec_app_score(
    idx: Set<Seq<char>>,
    app: AppView,
    mode: SearchMode,
    keywords: Seq<char>,
    initials: Seq<char>,
) -> Option<Score> {
    let q = spec_to_lowercase(trim(keywords));
    match mode {
        SearchMode::Name => if q.len() == 0 {
            None
        } else {
            name_score(idx, app.name, q)
        },
        SearchMode::Tag => if q.len() == 0 {
            None
        } else if tag_hit(q, app.tags) {
            Some(Score { whole: TAG_SCORE, span: None })
        } else {
            None
        },
        SearchMode::Initial => if initials.len() == 0 || indexed_initials(idx, app.name).len() == 0 {
            None
        } else if initials_hit(initials, spec_to_lowercase(indexed_initials(idx, app.name))) {
            Some(Score { whole: INITIALS_SCORE, span: None })
        } else {
            None
        },
    }
}

/// The score of every application for the query text `input` (zero where it
/// does not match).
pub open spec fn app_scores(idx: Set<Seq<char>>, apps: Seq<AppView>, input: Seq<char>) -> Seq<Score> {
    Seq::new(
        apps.len(),
        |j: int|
            match spec_app_score(idx, apps[j], spec_mode(input), spec_keywords(input), spec_initials(input)) {
                Some(s) => s,
                None => Score { whole: 0, span: None },
            },
    )
}

/// Application `j` is a search hit: the query has keywords, no filter hides
/// the application and it matches.
pub open spec fn is_hit(
    idx: Set<Seq<char>>,
    filters: Seq<crate::config::FilterRule>,
    apps: Seq<AppView>,
    input: Seq<char>,
    j: int,
) -> bool {
    &&& 0 <= j < apps.len()
    &&& spec_keywords(input).len() > 0
    &&& !spec_filtered(filters, apps[j].name)
    &&& spec_app_score(idx, apps[j], spec_mode(input), spec_keywords(input), spec_initials(input)) is Some
}

/// `js` lists every hit exactly once, best first: by score, then name, then
/// registry position.
pub open spec fn is_ranking(
    idx: Set<Seq<char>>,
    filters: Seq<crate::config::FilterRule>,
    apps: Seq<AppView>,
    input: Seq<char>,
    js: Seq<int>,
) -> bool {
    &&& forall|k: int| 0 <= k < js.len() ==> is_hit(idx, filters, apps, input, #[trigger] js[k])
    &&& forall|j: int| #[trigger] is_hit(idx, filters, apps, input, j) ==> js.contains(j)
    &&& forall|k: int, l: int|
        0 <= k < l < js.len() ==> ranks_before(app_scores(idx, apps, input), names_of(apps), js[k], js[l])
}

fn has_char(v: &[char], c: char) -> (r: bool)
    ensures
        r == v@.contains(c),
{
    for i in 0..v.len()
        invariant
            forall|j: int| 0 <= j < i ==> v@[j] != c,
    {
        if v[i] == c {
            return true;
        }
    }
    false
}

fn opt_better(acc: Option<Score>, c: Option<Score>) -> (r: Option<Score>)
    ensures
        r == keep_better(acc, c),
{
    match (acc, c) {
        (Some(a), Some(b)) => Some(better(a, b)),
        (None, _) => c,
        (_, None) => acc,
    }
}

impl SearchEngine {
    /// How well `app` answers the parsed query; `None` when it does not.
    fn score_app(&self, app: &AppInfo, mode: SearchMode, keywords: &str, initials: &Vec<char>) -> (r: Option<Score>)
        ensures
            r == spec_app_score(self.pinyin@, app@, mode, keywords@, initials@),
    {
        let kv = chars_of(keywords);
        let kt = trim_chars(&kv);
        let q = to_lowercase(string_of(&kt).as_str());
        match mode {
            SearchMode::Name => {
                if q.as_str().is_empty() {
                    return None;
                }
                let lname = to_lowercase(app.name.as_str());
                let mut best = fuzzy_score(q.as_str(), lname.as_str());
                let full = to_lowercase(self.pinyin.get_full(app.name.as_str()));
                let c2 = if !full.as_str().is_empty() {
                    fuzzy_score(q.as_str(), full.as_str())
                } else {
                    None
                };
                best = opt_better(best, c2);
                let ini = to_lowercase(self.pinyin.get_initials(app.name.as_str()));
                let c3 = if !ini.as_str().is_empty() {
                    fuzzy_score(q.as_str(), ini.as_str())
                } else {
                    None
                };
                opt_better(best, c3)
            },
            SearchMode::Tag => {
                if q.as_str().is_empty() {
                    return None;
                }
                let ghost tv = app@.tags;
                for k in 0..app.tags.len()
                    invariant
                        tv == crate::apps::strings_view(app.tags@),
                        tv == app@.tags,
                        mode == SearchMode::Tag,
                        q@ == spec_to_lowercase(trim(keywords@)),
                        q@.len() > 0,
                        forall|j: int| 0 <= j < k ==> !((#[trigger] spec_fuzzy(q@, spec_to_lowercase(tv[j]))) is Some),
                {
                    let lt = to_lowercase(app.tags[k].as_str());
                    assert(tv[k as int] == app.tags@[k as int]@);
                    if fuzzy_score(q.as_str(), lt.as_str()).is_some() {
                        assert(tag_hit(q@, tv)) by {
                            assert((spec_fuzzy(q@, spec_to_lowercase(tv[k as int]))) is Some);
                        }
                        return Some(Score { whole: TAG_SCORE, span: None });
                    }
                }
                None
            },
            SearchMode::Initial => {
                if initials.len() == 0 {
                    return None;
                }
                let raw = self.pinyin.get_initials(app.name.as_str());
                if raw.is_empty() {
                    return None;
                }
                let ini = to_lowercase(raw);
                let iv = chars_of(ini.as_str());
                for k in 0..initials.len()
                    invariant
                        iv@ == spec_to_lowercase(indexed_initials(self.pinyin@, app@.name)),
                        mode == SearchMode::Initial,
                        initials@.len() > 0,
                        forall|j: int| 0 <= j < k ==> iv@.contains(lower_char(#[trigger] initials@[j])),
                {
                    if !has_char(&iv, crate::text::char_lower(initials[k])) {
                        assert(!iv@.contains(lower_char(initials@[k as int])));
                        return None;
                    }
                }
                Some(Score { whole: INITIALS_SCORE, span: None })
            },
        }
    }

    /// Searches the registry: every application that matches the query and
    /// that no filter hides, with its score, best first (by score, then name,
    /// then registry position). An empty query finds nothing.
    pub fn search_scored<'a>(&self, registry: &'a AppRegistry, config: &SearchConfig, input: &str) -> (r:
        Vec<(&'a AppInfo, Score)>)
        ensures
            exists|js: Seq<int>|
                #![trigger is_ranking(self.pinyin@, config.filters@, apps_view(registry.apps@), input@, js)]
                is_ranking(self.pinyin@, config.filters@, apps_view(registry.apps@), input@, js)
                    && r@.len() == js.len() && forall|k: int|
                    0 <= k < js.len() ==> (#[trigger] r@[k]).0 == registry.apps@[js[k]] && r@[k].1
                        == app_scores(self.pinyin@, apps_view(registry.apps@), input@)[js[k]],
    {
        let ghost idx = self.pinyin@;
        let ghost apps = apps_view(registry.apps@);
        let ghost sc = app_scores(idx, apps, input@);
        let parsed = ParsedQuery::parse(input);
        let mut hits: Vec<usize> = Vec::new();
        let mut scores: Vec<Score> = Vec::new();
        let mut names: Vec<Vec<char>> = Vec::new();
        if !parsed.is_empty() {
            for j in 0..registry.apps.len()
                invariant
                    idx == self.pinyin@,
                    apps == apps_view(registry.apps@),
                    sc == app_scores(idx, apps, input@),
                    parsed.mode == spec_mode(input@),
                    parsed.keywords@ == spec_keywords(input@),
                    parsed.initials@ == spec_initials(input@),
                    spec_keywords(input@).len() > 0,
                    hits@.len() == scores@.len(),
                    hits@.len() == names@.len(),
                    forall|k: int| 0 <= k < hits@.len() ==> (#[trigger] hits@[k]) < j,
                    forall|k: int, l: int| 0 <= k < l < hits@.len() ==> hits@[k] < hits@[l],
                    forall|k: int|
                        0 <= k < hits@.len() ==> is_hit(idx, config.filters@, apps, input@, #[trigger] hits@[k] as int)
                            && scores@[k] == sc[hits@[k] as int] && names@[k]@ == apps[hits@[k] as int].name,
                    forall|x: int|
                        0 <= x < j && #[trigger] is_hit(idx, config.filters@, apps, input@, x) ==> hits@.contains(x as usize),
            {
                let ghost old_hits = hits@;
                let app = &registry.apps[j];
                if !config.is_app_filtered(app.name.as_str()) {
                    match self.score_app(app, parsed.mode, parsed.keywords.as_str(), &parsed.initials) {
                        Some(s) => {
                            hits.push(j);
                            scores.push(s);
                            names.push(chars_of(app.name.as_str()));
                        },
                        None => {},
                    }
                }
                proof {
                    assert forall|x: int|
                        0 <= x < j + 1 && #[trigger] is_hit(idx, config.filters@, apps, input@, x) implies hits@.contains(x as usize) by {
                        if x == j {
                            assert(hits@[hits@.len() - 1] == j);
                        } else {
                            assert(old_hits.contains(x as usize));
                            let w = choose|w: int| 0 <= w < old_hits.len() && old_hits[w] == x as usize;
                            assert(hits@[w] == old_hits[w]);
                        }
                    }
                }
            }
        }
        assert(forall|k: int| 0 <= k < hits@.len() ==> (#[trigger] hits@[k]) < registry.apps@.len());
        let order = rank_order(&scores, &names);
        let ghost nm = names@.map_values(|v: Vec<char>| v@);
        let mut out: Vec<(&'a AppInfo, Score)> = Vec::new();
        let ghost mut js: Seq<int> = Seq::empty();
        for p in 0..order.len()
            invariant
                order@.len() == hits@.len(),
                forall|k: int| 0 <= k < hits@.len() ==> (#[trigger] hits@[k]) < registry.apps@.len(),
                hits@.len() == scores@.len(),
                hits@.len() == names@.len(),
                forall|k: int| 0 <= k < order@.len() ==> (#[trigger] order@[k]) < hits@.len(),
                js.len() == p,
                out@.len() == p,
                forall|k: int| 0 <= k < p ==> #[trigger] js[k] == hits@[order@[k] as int] as int,
                forall|k: int|
                    0 <= k < p ==> (#[trigger] out@[k]).0 == registry.apps@[js[k]] && out@[k].1 == scores@[order@[k] as int],
        {
            let h = hits[order[p]];
            out.push((&registry.apps[h], scores[order[p]]));
            proof {
                js = js.push(h as int);
            }
        }
        proof {
            let n = hits@.len();
            if !(spec_keywords(input@).len() > 0) {
                assert forall|j: int| #[trigger] is_hit(idx, config.filters@, apps, input@, j) implies js.contains(j) by {}
            }
            assert forall|k: int| 0 <= k < js.len() implies is_hit(idx, config.filters@, apps, input@, #[trigger] js[k]) by {
                assert(js[k] == hits@[order@[k] as int] as int);
            }
            assert forall|j: int| #[trigger] is_hit(idx, config.filters@, apps, input@, j) implies js.contains(j) by {
                assert(hits@.contains(j as usize));
                let w = choose|w: int| 0 <= w < n && hits@[w] == j as usize;
                assert(order@.contains(w as usize));
                let u = choose|u: int| 0 <= u < n && order@[u] == w as usize;
                assert(js[u] == j);
            }
            assert forall|k: int, l: int| 0 <= k < l < js.len() implies ranks_before(sc, names_of(apps), js[k], js[l]) by {
                let a = order@[k] as int;
                let b = order@[l] as int;
                assert(ranks_before(scores@, nm, a, b));
                assert(nm[a] == names@[a]@ && nm[b] == names@[b]@);
                assert(names_of(apps)[js[k]] == apps[js[k]].name);
                assert(names_of(apps)[js[l]] == apps[js[l]].name);
                if a < b {
                    assert(hits@[a] < hits@[b]);
                } else if b < a {
                    assert(hits@[b] < hits@[a]);
                }
            }
            assert forall|k: int| 0 <= k < js.len() implies (#[trigger] out@[k]).1 == sc[js[k]] by {
                assert(js[k] == hits@[order@[k] as int] as int);
            }
            assert(is_ranking(idx, config.filters@, apps, input@, js));
        }
        out
    }

    /// The applications that match the query, best first (see
    /// [`SearchEngine::search_scored`]).
    pub fn search<'a>(&self, registry: &'a AppRegistry, config: &SearchConfig, input: &str) -> (r: Vec<&'a AppInfo>)
        ensures
            exists|js: Seq<int>|
                #![trigger is_ranking(self.pinyin@, config.filters@, apps_view(registry.apps@), input@, js)]
                is_ranking(self.pinyin@, config.filters@, apps_view(registry.apps@), input@, js)
                    && r@.len() == js.len() && forall|k: int|
                    0 <= k < js.len() ==> *(#[trigger] r@[k]) == registry.apps@[js[k]],
    {
        let scored = self.search_scored(registry, config, input);
        let mut out: Vec<&'a AppInfo> = Vec::new();
        for k in 0..scored.len()
            invariant
                out@.len() == k,
                forall|i: int| 0 <= i < k ==> *(#[trigger] out@[i]) == scored@[i].0,
        {
            out.push(scored[k].0);
        }
        out
    }
}

/// The text the search box starts with for a configured default mode selects
/// that mode, with no keywords yet.
pub proof fn lemma_default_prefix_mode(mode: crate::config::SearchMode)
    ensures
        spec_mode(crate::config::spec_default_prefix(mode)) == (match mode {
            crate::config::SearchMode::Tag => SearchMode::Tag,
            crate::config::SearchMode::Initial => SearchMode::Initial,
            crate::config::SearchMode::Name => SearchMode::Name,
        }),
        spec_keywords(crate::config::spec_default_prefix(mode)).len() == 0,
{
    reveal_strlit("t: ");
    reveal_strlit("i: ");
    reveal_strlit("");
    let p = crate::config::spec_default_prefix(mode);
    if p.len() > 0 {
        assert(trim_start(p) == p);
        let w = p.drop_last();
        assert(w.last() == ':');
        assert(trim_end(w) == w);
        assert(trim(p) == w);
        assert(w.take(2) =~= w);
        assert(w.skip(2) =~= Seq::<char>::empty());
        assert(trim(w.skip(2)) =~= Seq::<char>::empty());
        if mode == crate::config::SearchMode::Tag {
            assert(w =~= seq!['t', ':']);
        } else {
            assert(w =~= seq!['i', ':']);
            assert(w != seq!['t', ':'] && w != seq!['T', ':']) by {
                assert(w[0] != seq!['t', ':'][0]);
                assert(w[0] != seq!['T', ':'][0]);
            }
        }
    } else {
        assert(trim(p) =~= Seq::<char>::empty());
    }
}

/// An engine whose index is still empty (fresh from `SearchEngine::new`)
/// finds nothing for an initials query: without indexed initials no
/// application can match.
pub proof fn lemma_fresh_engine_no_initials(
    filters: Seq<crate::config::FilterRule>,
    apps: Seq<AppView>,
    input: Seq<char>,
    js: Seq<int>,
)
    requires
        spec_mode(input) == SearchMode::Initial,
        is_ranking(Set::<Seq<char>>::empty(), filters, apps, input, js),
    ensures
        js.len() == 0,
{
    if js.len() > 0 {
        assert(is_hit(Set::<Seq<char>>::empty(), filters, apps, input, js[0]));
    }
}

} // verus!
