//! Editable text buffer shared by the launcher's search box and the
//! configuration window's input fields.
//!
//! Text, caret and selection are kept as **byte offsets** into the UTF-8 text,
//! always on character boundaries; typing, backspace and delete replace the
//! selection when there is one.

use vstd::prelude::*;
use vstd::utf8::{encode_scalar, encode_utf8, char_is_scalar};
use crate::text::{chars_of, string_of, extend_chars, slice_chars};

verus! {

/// UTF-8 length of a character sequence.
pub open spec fn blen(s: Seq<char>) -> int {
    encode_utf8(s).len() as int
}

/// UTF-8 length of one character.
pub open spec fn width(c: char) -> int {
    encode_scalar(c as u32).len() as int
}

/// Byte offset `b` falls between two characters of `t` (or at either end).
pub open spec fn is_boundary(t: Seq<char>, b: int) -> bool {
    exists|k: int| 0 <= k <= t.len() && #[trigger] blen(t.take(k)) == b
}

/// The number of characters before byte offset `b` (meaningful on a boundary).
pub open spec fn cidx(t: Seq<char>, b: int) -> int {
    choose|k: int| 0 <= k <= t.len() && #[trigger] blen(t.take(k)) == b
}

pub proof fn lemma_width(c: char)
    ensures
        1 <= width(c) <= 4,
{
    char_is_scalar(c);
}

pub proof fn lemma_blen_concat(a: Seq<char>, b: Seq<char>)
    ensures
        blen(a + b) == blen(a) + blen(b),
    decreases a.len(),
{
    if a.len() == 0 {
        assert(a + b == b);
    } else {
        lemma_blen_concat(a.drop_first(), b);
        assert((a + b).drop_first() == a.drop_first() + b);
    }
}

pub proof fn lemma_blen_push(a: Seq<char>, c: char)
    ensures
        blen(a.push(c)) == blen(a) + width(c),
{
    lemma_blen_concat(a, seq![c]);
    assert(a.push(c) == a + seq![c]);
    assert(seq![c].drop_first() == Seq::<char>::empty());
    assert(encode_utf8(seq![c]) == encode_scalar(c as u32) + encode_utf8(Seq::<char>::empty()));
    assert(encode_scalar(c as u32) + Seq::<u8>::empty() == encode_scalar(c as u32));
}

/// Prefix lengths grow by one character width per character.
pub proof fn lemma_blen_take(t: Seq<char>, k: int)
    requires
        0 <= k < t.len(),
    ensures
        blen(t.take(k + 1)) == blen(t.take(k)) + width(t[k]),
        blen(t.take(k)) < blen(t.take(k + 1)),
{
    assert(t.take(k + 1) == t.take(k).push(t[k]));
    lemma_blen_push(t.take(k), t[k]);
    lemma_width(t[k]);
}

/// Prefix lengths are strictly increasing in the number of characters.
pub proof fn lemma_blen_mono(t: Seq<char>, i: int, j: int)
    requires
        0 <= i < j <= t.len(),
    ensures
        blen(t.take(i)) < blen(t.take(j)),
    decreases j - i,
{
    lemma_blen_take(t, j - 1);
    if i < j - 1 {
        lemma_blen_mono(t, i, j - 1);
    }
}

pub proof fn lemma_blen_bounds(t: Seq<char>, k: int)
    requires
        0 <= k <= t.len(),
    ensures
        0 <= blen(t.take(k)) <= blen(t),
        k <= blen(t.take(k)),
    decreases k,
{
    assert(t.take(t.len() as int) == t);
    if k < t.len() {
        lemma_blen_mono(t, k, t.len() as int);
    }
    if k > 0 {
        lemma_blen_bounds(t, k - 1);
        lemma_blen_take(t, k - 1);
        lemma_width(t[k - 1]);
    }
}

/// On a boundary, `cidx` is the unique character count.
pub proof fn lemma_cidx(t: Seq<char>, b: int, k: int)
    requires
        0 <= k <= t.len(),
        blen(t.take(k)) == b,
    ensures
        is_boundary(t, b),
        cidx(t, b) == k,
{
    let c = cidx(t, b);
    if c < k {
        lemma_blen_mono(t, c, k);
    } else if c > k {
        lemma_blen_mono(t, k, c);
    }
}

/// UTF-8 length of one character.
pub fn utf8_width(c: char) -> (n: usize)
    ensures
        n == width(c),
{
    proof {
        char_is_scalar(c);
    }
    let u = c as u32;
    if u < 0x80 {
        1
    } else if u < 0x800 {
        2
    } else if u < 0x10000 {
        3
    } else {
        4
    }
}

/// Character index of byte offset `b` in `v`, if `b` is a boundary.
fn char_index(v: &[char], b: usize) -> (r: Option<usize>)
    ensures
        r matches Some(k) ==> k <= v@.len() && blen(v@.take(k as int)) == b && cidx(v@, b as int) == k,
        r is None ==> !is_boundary(v@, b as int),
{
    let mut k: usize = 0;
    let mut acc: usize = 0;
    assert(v@.take(0) == Seq::<char>::empty());
    while k < v.len() && acc < b
        invariant
            k <= v@.len(),
            acc == blen(v@.take(k as int)),
            acc <= b,
            forall|j: int| 0 <= j < k ==> blen(v@.take(j)) < b,
        decreases v@.len() - k,
    {
        proof {
            lemma_blen_take(v@, k as int);
        }
        let w = utf8_width(v[k]);
        if w > b - acc {
            proof {
                assert forall|j: int| 0 <= j <= v@.len() implies blen(v@.take(j)) != b by {
                    if j > k + 1 {
                        lemma_blen_mono(v@, k + 1, j);
                    }
                }
            }
            return None;
        }
        acc = acc + w;
        k = k + 1;
    }
    if acc == b {
        proof {
            lemma_cidx(v@, b as int, k as int);
        }
        Some(k)
    } else {
        proof {
            assert(k == v@.len());
            assert forall|j: int| 0 <= j <= v@.len() implies blen(v@.take(j)) != b by {
                if j < k {
                }
            }
        }
        None
    }
}

/// Editable text: content, caret and selection, all in byte offsets.
#[derive(Debug, Clone, Default)]
pub struct TextEdit {
    /// The content.
    pub text: String,
    /// Caret position (byte offset, on a character boundary).
    pub caret: usize,
    /// Selected byte range `[lo, hi)`; `None` when nothing is selected.
    pub selection: Option<(usize, usize)>,
    /// Drag anchor (byte offset where the mouse went down); a backward drag
    /// is measured from here too.
    pub anchor: Option<usize>,
}

/// A selected range that can be replaced: ordered, inside the text, on
/// character boundaries.
pub open spec fn valid_range(t: Seq<char>, lo: int, hi: int) -> bool {
    lo <= hi && is_boundary(t, lo) && is_boundary(t, hi)
}

/// `t` with the characters between byte offsets `lo` and `hi` replaced by `r`.
pub open spec fn splice(t: Seq<char>, lo: int, hi: int, r: Seq<char>) -> Seq<char> {
    t.take(cidx(t, lo)) + r + t.skip(cidx(t, hi))
}

impl TextEdit {
    /// The byte length of the content fits in `usize` (always true of a
    /// `String` held in memory).
    pub open spec fn fits(&self) -> bool {
        blen(self.text@) <= usize::MAX
    }

    /// The caret, clamped to the text.
    pub open spec fn spec_caret(&self) -> int {
        if self.caret <= blen(self.text@) {
            self.caret as int
        } else {
            blen(self.text@)
        }
    }

    /// The selection, clamped to the text; empty ranges count as none.
    pub open spec fn spec_selection(&self) -> Option<(usize, usize)> {
        match self.selection {
            Some((lo, hi)) => {
                let n = blen(self.text@);
                let a = if lo <= n { lo as int } else { n };
                let b = if hi <= n { hi as int } else { n };
                if a < b {
                    Some((a as usize, b as usize))
                } else {
                    None
                }
            },
            None => None,
        }
    }

    /// What an edit can be applied to without panicking: a selection to
    /// replace must be an ordered range on character boundaries, otherwise
    /// the caret must be on a character boundary.
    pub open spec fn editable(&self) -> bool {
        &&& self.fits()
        &&& match self.selection {
            Some((lo, hi)) => valid_range(self.text@, lo as int, hi as int),
            None => is_boundary(self.text@, self.spec_caret()),
        }
    }

    fn byte_len(&self) -> (n: usize)
        requires
            self.fits(),
        ensures
            n == blen(self.text@),
    {
        self.text.as_str().len()
    }

    /// A buffer holding `text`, caret at the end, nothing selected.
    pub fn new(text: &str) -> (r: TextEdit)
        requires
            blen(text@) <= usize::MAX,
        ensures
            r.text@ == text@,
            r.caret as int == blen(text@),
            r.selection is None,
            r.anchor is None,
    {
        let s = text.to_string();
        let caret = s.as_str().len();
        TextEdit { text: s, caret, selection: None, anchor: None }
    }

    /// The caret, clamped to the text (always a valid position).
    pub fn caret(&self) -> (r: usize)
        requires
            self.fits(),
        ensures
            r == self.spec_caret(),
    {
        let n = self.byte_len();
        if self.caret < n {
            self.caret
        } else {
            n
        }
    }

    /// The selection, clamped to the text; `None` when it is empty.
    pub fn selection(&self) -> (r: Option<(usize, usize)>)
        requires
            self.fits(),
        ensures
            r == self.spec_selection(),
    {
        match self.selection {
            Some((lo, hi)) => {
                let n = self.byte_len();
                let a = if lo < n { lo } else { n };
                let b = if hi < n { hi } else { n };
                if a < b {
                    Some((a, b))
                } else {
                    None
                }
            },
            None => None,
        }
    }

    /// Selects the whole text (caret to the end); an empty text gets no selection.
    pub fn select_all(&mut self)
        requires
            old(self).fits(),
        ensures
            final(self).text@ == old(self).text@,
            final(self).anchor is None,
            old(self).text@.len() == 0 ==> final(self).caret == 0 && final(self).selection is None,
            old(self).text@.len() > 0 ==> final(self).caret as int == blen(old(self).text@)
                && final(self).selection == Some((0usize, final(self).caret)),
    {
        let n = self.byte_len();
        if n == 0 {
            proof {
                if self.text@.len() > 0 {
                    lemma_blen_bounds(self.text@, self.text@.len() as int);
                    assert(self.text@.take(self.text@.len() as int) == self.text@);
                }
            }
            self.caret = 0;
            self.selection = None;
            self.anchor = None;
            return;
        }
        proof {
            if self.text@.len() == 0 {
                assert(encode_utf8(self.text@) == Seq::<u8>::empty());
            }
        }
        self.caret = n;
        self.selection = Some((0, n));
        self.anchor = None;
    }

    /// Starts a drag selection at `byte` (clamped): the anchor stays there.
    pub fn begin_select(&mut self, byte: usize)
        requires
            old(self).fits(),
        ensures
            ({
                let b = if byte as int <= blen(old(self).text@) { byte } else { blen(old(self).text@) as usize };
                &&& final(self).text@ == old(self).text@
                &&& final(self).caret == b
                &&& final(self).anchor == Some(b)
                &&& final(self).selection == Some((b, b))
            }),
    {
        let n = self.byte_len();
        let b = if byte < n { byte } else { n };
        self.caret = b;
        self.anchor = Some(b);
        self.selection = Some((b, b));
    }

    /// Continues a drag to `byte` (clamped): the selection spans the anchor and
    /// the new position, whichever way the drag goes.
    pub fn extend_select(&mut self, byte: usize)
        requires
            old(self).fits(),
        ensures
            ({
                let b = if byte as int <= blen(old(self).text@) { byte } else { blen(old(self).text@) as usize };
                let a = match old(self).anchor { Some(a) => a, None => b };
                &&& final(self).text@ == old(self).text@
                &&& final(self).caret == b
                &&& final(self).anchor == old(self).anchor
                &&& final(self).selection == Some((if a <= b { a } else { b }, if a <= b { b } else { a }))
            }),
    {
        let n = self.byte_len();
        let b = if byte < n { byte } else { n };
        let a = match self.anchor {
            Some(a) => a,
            None => b,
        };
        let lo = if a <= b { a } else { b };
        let hi = if a <= b { b } else { a };
        self.selection = Some((lo, hi));
        self.caret = b;
    }

    /// Ends the drag: the anchor is dropped, the selection kept.
    pub fn end_select(&mut self)
        ensures
            final(self).text@ == old(self).text@,
            final(self).caret == old(self).caret,
            final(self).selection == old(self).selection,
            final(self).anchor is None,
    {
        self.anchor = None;
    }

    /// Types `ch`: it replaces the selection, or goes in at the caret.
    pub fn insert_char(&mut self, ch: char)
        requires
            old(self).editable(),
            blen(old(self).text@) + 4 <= usize::MAX,
        ensures
            final(self).selection is None,
            final(self).anchor is None,
            ({
                let t = old(self).text@;
                match old(self).selection {
                    Some((lo, hi)) => final(self).text@ == splice(t, lo as int, hi as int, seq![ch])
                        && final(self).caret == lo + width(ch),
                    None => final(self).text@ == splice(t, old(self).spec_caret(), old(self).spec_caret(), seq![ch])
                        && final(self).caret == old(self).spec_caret() + width(ch),
                }
            }),
            final(self).fits(),
    {
        let c = self.caret();
        let v = chars_of(self.text.as_str());
        let (lo, hi) = match self.selection {
            Some((lo, hi)) => (lo, hi),
            None => (c, c),
        };
        let a = char_index(&v, lo).unwrap();
        let z = char_index(&v, hi).unwrap();
        proof {
            if a > z {
                lemma_blen_mono(v@, z as int, a as int);
            }
            lemma_blen_bounds(v@, a as int);
        }
        let mut out = slice_chars(&v, 0, a);
        out.push(ch);
        let rest = slice_chars(&v, z, v.len());
        extend_chars(&mut out, &rest);
        let w = utf8_width(ch);
        proof {
            let t = v@;
            assert(out@ == t.take(a as int) + seq![ch] + t.skip(z as int));
            lemma_blen_concat(t.take(a as int) + seq![ch], t.skip(z as int));
            lemma_blen_push(t.take(a as int), ch);
            assert(t.take(a as int).push(ch) == t.take(a as int) + seq![ch]);
            assert(t == t.take(z as int) + t.skip(z as int));
            lemma_blen_concat(t.take(z as int), t.skip(z as int));
            lemma_blen_bounds(t, z as int);
            lemma_blen_bounds(t, a as int);
            lemma_width(ch);
        }
        self.text = string_of(&out);
        self.caret = lo + w;
        self.selection = None;
        self.anchor = None;
    }

    /// The selection is removed, or else (nothing selected, an empty range
    /// counting as nothing) the character before the caret.
    pub fn backspace(&mut self)
        requires
            old(self).editable(),
            old(self).spec_selection() is None ==> is_boundary(old(self).text@, old(self).spec_caret()),
        ensures
            final(self).selection is None,
            final(self).anchor is None,
            final(self).fits(),
            ({
                let t = old(self).text@;
                let c = old(self).spec_caret();
                match old(self).spec_selection() {
                    Some((lo, hi)) => final(self).text@ == splice(t, lo as int, hi as int, seq![])
                        && final(self).caret == lo,
                    None => if c > 0 {
                        let k = cidx(t, c);
                        final(self).text@ == t.take(k - 1) + t.skip(k)
                            && final(self).caret == blen(t.take(k - 1))
                            && final(self).caret == c - width(t[k - 1])
                    } else {
                        final(self).text@ == t && final(self).caret == old(self).caret
                    },
                }
            }),
    {
        let c = self.caret();
        let v = chars_of(self.text.as_str());
        proof {
            self.lemma_selection_in_text();
        }
        match self.selection() {
            Some((lo, hi)) => {
                self.remove_range(&v, lo, hi);
            },
            None => {
                if c > 0 {
                    let k = char_index(&v, c).unwrap();
                    proof {
                        if k == 0 {
                            assert(v@.take(0) == Seq::<char>::empty());
                        }
                        lemma_blen_take(v@, k - 1);
                    }
                    let mut out = slice_chars(&v, 0, k - 1);
                    let rest = slice_chars(&v, k, v.len());
                    extend_chars(&mut out, &rest);
                    let w = utf8_width(v[k - 1]);
                    proof {
                        let t = v@;
                        lemma_blen_concat(t.take(k - 1), t.skip(k as int));
                        assert(t == t.take(k as int) + t.skip(k as int));
                        lemma_blen_concat(t.take(k as int), t.skip(k as int));
                    }
                    self.text = string_of(&out);
                    self.caret = c - w;
                }
            },
        }
        self.selection = None;
        self.anchor = None;
    }

    /// A selected range that is not empty lies on character boundaries
    /// inside the text, so the clamped range is the raw one.
    proof fn lemma_selection_in_text(&self)
        requires
            self.editable(),
        ensures
            self.spec_selection() matches Some((lo, hi)) ==> self.selection == Some((lo, hi)) && valid_range(
                self.text@,
                lo as int,
                hi as int,
            ),
    {
        if let Some((lo, hi)) = self.selection {
            let t = self.text@;
            assert(t.take(t.len() as int) == t);
            let kl = choose|k: int| 0 <= k <= t.len() && #[trigger] blen(t.take(k)) == lo;
            let kh = choose|k: int| 0 <= k <= t.len() && #[trigger] blen(t.take(k)) == hi;
            if kl < t.len() {
                lemma_blen_mono(t, kl, t.len() as int);
            }
            if kh < t.len() {
                lemma_blen_mono(t, kh, t.len() as int);
            }
        }
    }

    /// Removes the bytes `[lo, hi)`, a range on character boundaries of the
    /// text `v`; the caret goes to `lo`.
    fn remove_range(&mut self, v: &Vec<char>, lo: usize, hi: usize)
        requires
            v@ == old(self).text@,
            valid_range(v@, lo as int, hi as int),
            old(self).fits(),
        ensures
            final(self).text@ == splice(v@, lo as int, hi as int, seq![]),
            final(self).caret == lo,
            final(self).selection == old(self).selection,
            final(self).anchor == old(self).anchor,
            final(self).fits(),
    {
        let a = char_index(v, lo).unwrap();
        let z = char_index(v, hi).unwrap();
        proof {
            if a > z {
                lemma_blen_mono(v@, z as int, a as int);
            }
        }
        let mut out = slice_chars(v, 0, a);
        let rest = slice_chars(v, z, v.len());
        extend_chars(&mut out, &rest);
        proof {
            let t = v@;
            assert(out@ == t.take(a as int) + Seq::<char>::empty() + t.skip(z as int));
            lemma_blen_concat(t.take(a as int), t.skip(z as int));
            assert(t == t.take(z as int) + t.skip(z as int));
            lemma_blen_concat(t.take(z as int), t.skip(z as int));
            if a < z {
                lemma_blen_mono(t, a as int, z as int);
            }
        }
        self.text = string_of(&out);
        self.caret = lo;
    }

    /// The selection is removed, or else (nothing selected, an empty range
    /// counting as nothing) the character after the caret; the caret stays
    /// where it is.
    pub fn delete(&mut self)
        requires
            old(self).editable(),
            old(self).spec_selection() is None ==> is_boundary(old(self).text@, old(self).spec_caret()),
        ensures
            final(self).selection is None,
            final(self).anchor is None,
            final(self).fits(),
            ({
                let t = old(self).text@;
                let c = old(self).spec_caret();
                match old(self).spec_selection() {
                    Some((lo, hi)) => final(self).text@ == splice(t, lo as int, hi as int, seq![])
                        && final(self).caret == lo,
                    None => final(self).caret == old(self).caret && if c < blen(t) {
                        let k = cidx(t, c);
                        final(self).text@ == t.take(k) + t.skip(k + 1)
                    } else {
                        final(self).text@ == t
                    },
                }
            }),
    {
        let c = self.caret();
        let n = self.byte_len();
        let v = chars_of(self.text.as_str());
        proof {
            self.lemma_selection_in_text();
        }
        match self.selection() {
            Some((lo, hi)) => {
                self.remove_range(&v, lo, hi);
            },
            None => {
                if c < n {
                    let k = char_index(&v, c).unwrap();
                    proof {
                        if k == v@.len() {
                            assert(v@.take(k as int) == v@);
                        }
                    }
                    assert(k < v.len());
                    let mut out = slice_chars(&v, 0, k);
                    let rest = slice_chars(&v, k + 1, v.len());
                    extend_chars(&mut out, &rest);
                    proof {
                        let t = v@;
                        lemma_blen_concat(t.take(k as int), t.skip(k + 1));
                        assert(t == t.take(k + 1) + t.skip(k + 1));
                        lemma_blen_concat(t.take(k + 1), t.skip(k + 1));
                        lemma_blen_mono(t, k as int, k + 1);
                    }
                    self.text = string_of(&out);
                }
            },
        }
        self.selection = None;
        self.anchor = None;
    }
}

/// Typing a character and then pressing backspace gives back the text and
/// the caret: after `insert_char` at a caret on a character boundary (and no
/// selection), the character before the new caret is the one typed, so
/// `backspace` removes exactly it.
pub proof fn lemma_insert_then_backspace(t: Seq<char>, k: int, ch: char)
    requires
        0 <= k <= t.len(),
    ensures
        ({
            let c = blen(t.take(k));
            let t2 = splice(t, c, c, seq![ch]);
            let c2 = c + width(ch);
            &&& c2 <= blen(t2)
            &&& cidx(t2, c2) == k + 1
            &&& t2.take(k + 1 - 1) + t2.skip(k + 1) == t
            &&& blen(t2.take(k + 1 - 1)) == c
        }),
{
    let c = blen(t.take(k));
    lemma_cidx(t, c, k);
    let t2 = splice(t, c, c, seq![ch]);
    assert(t2 == t.take(k) + seq![ch] + t.skip(k));
    assert(t2.take(k) == t.take(k));
    assert(t2.take(k + 1) == t.take(k).push(ch));
    lemma_blen_push(t.take(k), ch);
    lemma_cidx(t2, c + width(ch), k + 1);
    assert(t2.skip(k + 1) == t.skip(k));
    assert(t.take(k) + t.skip(k) == t);
    lemma_blen_bounds(t2, k + 1);
}

} // verus!
