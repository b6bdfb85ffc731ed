//! Reading the built-in SVG icons: the tags of an icon, each element's
//! drawing style and geometry, and the root's view box. Coordinates stay as
//! the text written in the file; turning them into numbers and drawing them
//! is floating-point work left to the renderer.

use vstd::prelude::*;
use crate::env::{find_char, lemma_find_char};
use crate::apps::strings_view;
use crate::text::{is_ascii_digit, is_whitespace, lower_chars, lower_seq, spec_is_whitespace, chars_of, contains, matches_at, occurs_at, seq_contains, slice_chars, string_of, trim, trim_chars};

verus! {

/// How an icon element is drawn.
#[derive(Debug, Clone, Copy, PartialEq, Eq, Structural)]
pub enum IconStyle {
    /// Outline (round caps and joins, width scaled with the icon).
    Stroke,
    /// Solid fill.
    Fill,
}

/// The style of an element from its (lower-cased) tag text: a stroke that
/// is not `none` wins, then a fill that is not `none`; outline otherwise.
pub open spec fn spec_element_style(tag: Seq<char>) -> IconStyle {
    let stroke_none = seq_contains(tag, "stroke=\"none\""@) || seq_contains(tag, "stroke='none'"@)
        || seq_contains(tag, "stroke:none"@);
    let has_stroke = seq_contains(tag, "stroke="@) && !stroke_none;
    let fill_none = seq_contains(tag, "fill=\"none\""@) || seq_contains(tag, "fill='none'"@)
        || seq_contains(tag, "fill:none"@);
    let has_fill = (seq_contains(tag, "fill="@) || seq_contains(tag, "fill:"@)) && !fill_none;
    if has_stroke {
        IconStyle::Stroke
    } else if has_fill {
        IconStyle::Fill
    } else {
        IconStyle::Stroke
    }
}

fn has(tag: &[char], pat: &str) -> (r: bool)
    ensures
        r == seq_contains(tag@, pat@),
{
    let p = chars_of(pat);
    contains(tag, &p)
}

/// The drawing style of an element, from its lower-cased tag text.
pub fn element_style(tag_lower: &str) -> (r: IconStyle)
    ensures
        r == spec_element_style(tag_lower@),
{
    let t = chars_of(tag_lower);
    let stroke_none = has(&t, "stroke=\"none\"") || has(&t, "stroke='none'") || has(&t, "stroke:none");
    let has_stroke = has(&t, "stroke=") && !stroke_none;
    let fill_none = has(&t, "fill=\"none\"") || has(&t, "fill='none'") || has(&t, "fill:none");
    let has_fill = (has(&t, "fill=") || has(&t, "fill:")) && !fill_none;
    if has_stroke {
        IconStyle::Stroke
    } else if has_fill {
        IconStyle::Fill
    } else {
        IconStyle::Stroke
    }
}

/// First position at or after `i` where `p` occurs in `s`, or -1.
pub open spec fn find_seq_from(s: Seq<char>, p: Seq<char>, i: int) -> int
    decreases s.len() - i,
{
    if i < 0 || i + p.len() > s.len() {
        -1
    } else if occurs_at(s, p, i) {
        i
    } else if i >= s.len() {
        -1
    } else {
        find_seq_from(s, p, i + 1)
    }
}

fn find_seq_exec(s: &[char], p: &[char], from: usize) -> (r: Option<usize>)
    ensures
        match r {
            Some(i) => i as int == find_seq_from(s@, p@, from as int) && i + p@.len() <= s@.len(),
            None => find_seq_from(s@, p@, from as int) == -1,
        },
    decreases s@.len() - from,
{
    if from > s.len() || p.len() > s.len() - from {
        return None;
    }
    if matches_at(s, p, from) {
        return Some(from);
    }
    if from >= s.len() {
        return None;
    }
    find_seq_exec(s, p, from + 1)
}

/// The value of attribute `key` in tag text `t`, scanning from `i`: the
/// first `key=` followed by a quote, up to the matching quote, trimmed.
/// Occurrences of `key=` not followed by a quote are skipped.
pub open spec fn attr_from(t: Seq<char>, pat: Seq<char>, i: int) -> Option<Seq<char>>
    decreases t.len() - i,
{
    let idx = find_seq_from(t, pat, i);
    if idx < 0 || i < 0 {
        None
    } else {
        let a = idx + pat.len();
        if a >= t.len() {
            None
        } else {
            let q = t[a];
            if q != '"' && q != '\'' {
                if idx + 1 > i {
                    attr_from(t, pat, idx + 1)
                } else {
                    None
                }
            } else {
                let span = t.skip(a + 1);
                let e = find_char(span, q);
                if e < 0 {
                    None
                } else {
                    Some(trim(span.take(e)))
                }
            }
        }
    }
}

/// What `attr` answers for attribute `key` of tag text `t`.
pub open spec fn spec_attr(t: Seq<char>, key: Seq<char>) -> Option<Seq<char>> {
    attr_from(t, key.push('='), 0)
}

proof fn lemma_find_seq_from(s: Seq<char>, p: Seq<char>, i: int)
    requires
        0 <= i,
    ensures
        find_seq_from(s, p, i) == -1 || (i <= find_seq_from(s, p, i) && find_seq_from(s, p, i) + p.len()
            <= s.len()),
    decreases s.len() - i,
{
    if i + p.len() <= s.len() && !occurs_at(s, p, i) && i < s.len() {
        lemma_find_seq_from(s, p, i + 1);
    }
}

/// The value of attribute `key` (`key="..."` or `key='...'`, trimmed) in an
/// element's tag text; a match must be the whole `key=`, so a key that is a
/// piece of another name is not mistaken for it.
pub fn attr(t: &str, key: &str) -> (r: Option<String>)
    ensures
        match r {
            Some(v) => spec_attr(t@, key@) == Some(v@),
            None => spec_attr(t@, key@) is None,
        },
{
    let tv = chars_of(t);
    let mut pat = chars_of(key);
    pat.push('=');
    let mut i: usize = 0;
    loop
        invariant
            tv@ == t@,
            pat@ == key@.push('='),
            i <= tv@.len(),
            spec_attr(t@, key@) == attr_from(tv@, pat@, i as int),
        decreases tv@.len() - i,
    {
        proof {
            lemma_find_seq_from(tv@, pat@, i as int);
        }
        let idx = match find_seq_exec(&tv, &pat, i) {
            Some(x) => x,
            None => {
                return None;
            },
        };
        let a = idx + pat.len();
        if a >= tv.len() {
            return None;
        }
        let q = tv[a];
        if q != '"' && q != '\'' {
            i = idx + 1;
            continue;
        }
        let span = slice_chars(&tv, a + 1, tv.len());
        assert(span@ == tv@.skip(a + 1));
        match crate::env::find_char_in(&span, q) {
            None => {
                return None;
            },
            Some(e) => {
                let inner = slice_chars(&span, 0, e);
                assert(inner@ == span@.take(e as int));
                let v = trim_chars(&inner);
                return Some(string_of(&v));
            },
        }
    }
}

/// One character of the number splitter: the texts completed so far, the
/// text being read and whether its last character was a digit or point.
pub open spec fn num_step(st: (Seq<Seq<char>>, Seq<char>, bool), c: char) -> (Seq<Seq<char>>, Seq<char>, bool) {
    let (out, buf, last) = st;
    if is_ascii_digit(c) || c == '.' {
        (out, buf.push(c), true)
    } else if c == '-' || c == '+' {
        if last && buf.len() > 0 {
            (out.push(buf), seq![c], false)
        } else {
            (out, buf.push(c), false)
        }
    } else if c == 'e' || c == 'E' {
        (out, buf.push(c), last)
    } else if last && buf.len() > 0 {
        (out.push(buf), seq![], false)
    } else {
        (out, buf, false)
    }
}

pub open spec fn num_scan(s: Seq<char>) -> (Seq<Seq<char>>, Seq<char>, bool)
    decreases s.len(),
{
    if s.len() == 0 {
        (seq![], seq![], false)
    } else {
        num_step(num_scan(s.drop_last()), s.last())
    }
}

/// The number texts of a list such as `10,20 -5.5e2 3-4`: digits and points
/// make a number, a sign starts a new one after a number, `e`/`E` is kept,
/// anything else separates.
pub open spec fn spec_numbers(s: Seq<char>) -> Seq<Seq<char>> {
    let (out, buf, last) = num_scan(s);
    if last && buf.len() > 0 {
        out.push(buf)
    } else {
        out
    }
}

/// Splits a coordinate list (`viewBox`, `points`) into the texts of its
/// numbers; a sign belongs to the number after it. Reading each text as a
/// number (0 when it is not one) is the renderer's floating-point work.
pub fn numbers(s: &str) -> (r: Vec<String>)
    ensures
        strings_view(r@) == spec_numbers(s@),
{
    let v = chars_of(s);
    let mut out: Vec<String> = Vec::new();
    let mut buf: Vec<char> = Vec::new();
    let mut last = false;
    let mut i: usize = 0;
    assert(v@.take(0) =~= Seq::<char>::empty());
    assert(strings_view(out@) =~= Seq::<Seq<char>>::empty());
    while i < v.len()
        invariant
            i <= v@.len(),
            v@ == s@,
            (strings_view(out@), buf@, last) == num_scan(v@.take(i as int)),
        decreases v@.len() - i,
    {
        let c = v[i];
        assert(v@.take(i + 1).drop_last() == v@.take(i as int));
        assert(v@.take(i + 1).last() == c);
        let ghost before = strings_view(out@);
        if ('0' <= c && c <= '9') || c == '.' {
            buf.push(c);
            last = true;
        } else if c == '-' || c == '+' {
            if last && buf.len() > 0 {
                out.push(string_of(&buf));
                assert(strings_view(out@) == before.push(buf@));
                buf = vec![c];
            } else {
                buf.push(c);
            }
            last = false;
        } else if c == 'e' || c == 'E' {
            buf.push(c);
        } else {
            if last && buf.len() > 0 {
                out.push(string_of(&buf));
                assert(strings_view(out@) == before.push(buf@));
                buf = Vec::new();
                assert(buf@ =~= Seq::<char>::empty());
            }
            last = false;
        }
        i += 1;
    }
    assert(v@.take(v@.len() as int) == v@);
    if last && buf.len() > 0 {
        let ghost before = strings_view(out@);
        out.push(string_of(&buf));
        assert(strings_view(out@) == before.push(buf@));
    }
    out
}

/// Geometry of an icon element, with its coordinates as written in the file.
#[derive(Debug, Clone, PartialEq)]
pub enum ShapeKind {
    /// SVG path data.
    Path(String),
    Line { x1: String, y1: String, x2: String, y2: String },
    Circle { cx: String, cy: String, r: String },
    /// A rectangle; `r` is the corner radius (`rx`), absent for square corners.
    Rect { x: String, y: String, w: String, h: String, r: Option<String> },
    /// The number texts of `points`, taken two by two as x, y.
    Polyline(Vec<String>),
}

pub enum ShapeView {
    Path(Seq<char>),
    Line { x1: Seq<char>, y1: Seq<char>, x2: Seq<char>, y2: Seq<char> },
    Circle { cx: Seq<char>, cy: Seq<char>, r: Seq<char> },
    Rect { x: Seq<char>, y: Seq<char>, w: Seq<char>, h: Seq<char>, r: Option<Seq<char>> },
    Polyline(Seq<Seq<char>>),
}

impl View for ShapeKind {
    type V = ShapeView;

    open spec fn view(&self) -> ShapeView {
        match self {
            ShapeKind::Path(d) => ShapeView::Path(d@),
            ShapeKind::Line { x1, y1, x2, y2 } => ShapeView::Line { x1: x1@, y1: y1@, x2: x2@, y2: y2@ },
            ShapeKind::Circle { cx, cy, r } => ShapeView::Circle { cx: cx@, cy: cy@, r: r@ },
            ShapeKind::Rect { x, y, w, h, r } => ShapeView::Rect {
                x: x@,
                y: y@,
                w: w@,
                h: h@,
                r: crate::apps::opt_str_view(*r),
            },
            ShapeKind::Polyline(p) => ShapeView::Polyline(strings_view(p@)),
        }
    }
}

/// `s` without its trailing `/` characters.
pub open spec fn trim_end_slash(s: Seq<char>) -> Seq<char>
    decreases s.len(),
{
    if s.len() > 0 && s.last() == '/' {
        trim_end_slash(s.drop_last())
    } else {
        s
    }
}

/// Position of the first whitespace of `s`, or its length.
pub open spec fn first_ws(s: Seq<char>) -> int
    decreases s.len(),
{
    if s.len() == 0 {
        0
    } else if spec_is_whitespace(s[0]) {
        0
    } else {
        1 + first_ws(s.drop_first())
    }
}

/// The text of a tag after its `<`, without trailing `/`, trimmed.
pub open spec fn tag_body(tag: Seq<char>) -> Seq<char> {
    trim(trim_end_slash(tag.skip(1)))
}

/// The element name of a tag: its body up to the first whitespace.
pub open spec fn tag_name(tag: Seq<char>) -> Seq<char> {
    tag_body(tag).take(first_ws(tag_body(tag)))
}

/// The geometry of element `name` whose tag body is `t`: every coordinate
/// attribute it needs must be there (and a path's data not blank).
pub open spec fn spec_shape(t: Seq<char>, name: Seq<char>) -> Option<ShapeView> {
    if name == "path"@ {
        match spec_attr(t, "d"@) {
            Some(d) => if trim(d).len() == 0 {
                None
            } else {
                Some(ShapeView::Path(trim(d)))
            },
            None => None,
        }
    } else if name == "line"@ {
        match (spec_attr(t, "x1"@), spec_attr(t, "y1"@), spec_attr(t, "x2"@), spec_attr(t, "y2"@)) {
            (Some(x1), Some(y1), Some(x2), Some(y2)) => Some(ShapeView::Line { x1, y1, x2, y2 }),
            _ => None,
        }
    } else if name == "circle"@ {
        match (spec_attr(t, "cx"@), spec_attr(t, "cy"@), spec_attr(t, "r"@)) {
            (Some(cx), Some(cy), Some(r)) => Some(ShapeView::Circle { cx, cy, r }),
            _ => None,
        }
    } else if name == "rect"@ {
        match (spec_attr(t, "x"@), spec_attr(t, "y"@), spec_attr(t, "width"@), spec_attr(t, "height"@)) {
            (Some(x), Some(y), Some(w), Some(h)) => Some(ShapeView::Rect { x, y, w, h, r: spec_attr(t, "rx"@) }),
            _ => None,
        }
    } else if name == "polyline"@ {
        match spec_attr(t, "points"@) {
            Some(p) => Some(ShapeView::Polyline(spec_numbers(p))),
            None => None,
        }
    } else {
        None
    }
}

/// What `parse_element` answers for a tag.
pub open spec fn spec_parse_element(tag: Seq<char>) -> Option<(IconStyle, ShapeView)> {
    let t = tag_body(tag);
    match spec_shape(t, t.take(first_ws(t))) {
        Some(k) => Some((spec_element_style(lower_seq(t)), k)),
        None => None,
    }
}

fn trim_end_slash_exec(v: &[char]) -> (r: Vec<char>)
    ensures
        r@ == trim_end_slash(v@),
{
    let mut hi = v.len();
    assert(v@.take(hi as int) == v@);
    while hi > 0 && v[hi - 1] == '/'
        invariant
            hi <= v@.len(),
            trim_end_slash(v@) == trim_end_slash(v@.take(hi as int)),
        decreases hi,
    {
        assert(v@.take(hi as int).drop_last() == v@.take(hi - 1));
        hi -= 1;
    }
    let r = slice_chars(v, 0, hi);
    assert(r@ == v@.take(hi as int));
    r
}

fn first_ws_exec(v: &[char]) -> (r: usize)
    ensures
        r as int == first_ws(v@),
        r <= v@.len(),
{
    let mut i: usize = 0;
    assert(v@.skip(0) == v@);
    while i < v.len() && !is_whitespace(v[i])
        invariant
            i <= v@.len(),
            first_ws(v@) == i + first_ws(v@.skip(i as int)),
        decreases v@.len() - i,
    {
        assert(v@.skip(i as int).drop_first() == v@.skip(i + 1));
        i += 1;
    }
    proof {
        if i < v@.len() {
            assert(v@.skip(i as int)[0] == v@[i as int]);
        }
    }
    i
}

fn tag_body_exec(tag: &[char]) -> (r: Vec<char>)
    requires
        tag@.len() > 0,
    ensures
        r@ == tag_body(tag@),
{
    let after = slice_chars(tag, 1, tag.len());
    assert(after@ == tag@.skip(1));
    let ns = trim_end_slash_exec(&after);
    trim_chars(&ns)
}

fn attr_of(t: &String, key: &str) -> (r: Option<String>)
    ensures
        match r {
            Some(v) => spec_attr(t@, key@) == Some(v@),
            None => spec_attr(t@, key@) is None,
        },
{
    attr(t.as_str(), key)
}

/// Reads one element of an icon from its tag text (starting at `<`): its
/// drawing style and geometry, for `path`, `line`, `circle`, `rect` and
/// `polyline` elements that carry the coordinates they need; `None` for any
/// other tag.
pub fn parse_element(tag: &str) -> (r: Option<(IconStyle, ShapeKind)>)
    requires
        tag@.len() > 0,
        (tag@[0] as u32) < 0x80,
    ensures
        match r {
            Some((st, k)) => spec_parse_element(tag@) == Some((st, k@)),
            None => spec_parse_element(tag@) is None,
        },
{
    proof {
        reveal_strlit("path");
        reveal_strlit("line");
        reveal_strlit("circle");
        reveal_strlit("rect");
        reveal_strlit("polyline");
        reveal_strlit("d");
        reveal_strlit("x1");
        reveal_strlit("y1");
        reveal_strlit("x2");
        reveal_strlit("y2");
        reveal_strlit("cx");
        reveal_strlit("cy");
        reveal_strlit("r");
        reveal_strlit("x");
        reveal_strlit("y");
        reveal_strlit("width");
        reveal_strlit("height");
        reveal_strlit("rx");
        reveal_strlit("points");
    }
    let tv = chars_of(tag);
    let tb = tag_body_exec(&tv);
    let n = first_ws_exec(&tb);
    let name = slice_chars(&tb, 0, n);
    assert(name@ == tb@.take(n as int));
    let t = string_of(&tb);
    let lower = lower_chars(&tb);
    let style = element_style(string_of(&lower).as_str());
    let ghost nv = name@;
    let kind = if crate::text::chars_eq(&name, &chars_of("path")) {
        let d = match attr_of(&t, "d") {
            Some(d) => d,
            None => {
                return None;
            },
        };
        let dt = trim_chars(&chars_of(d.as_str()));
        if dt.len() == 0 {
            return None;
        }
        ShapeKind::Path(string_of(&dt))
    } else if crate::text::chars_eq(&name, &chars_of("line")) {
        let x1 = attr_of(&t, "x1");
        let y1 = attr_of(&t, "y1");
        let x2 = attr_of(&t, "x2");
        let y2 = attr_of(&t, "y2");
        match (x1, y1, x2, y2) {
            (Some(x1), Some(y1), Some(x2), Some(y2)) => ShapeKind::Line { x1, y1, x2, y2 },
            _ => {
                return None;
            },
        }
    } else if crate::text::chars_eq(&name, &chars_of("circle")) {
        let cx = attr_of(&t, "cx");
        let cy = attr_of(&t, "cy");
        let r = attr_of(&t, "r");
        match (cx, cy, r) {
            (Some(cx), Some(cy), Some(r)) => ShapeKind::Circle { cx, cy, r },
            _ => {
                return None;
            },
        }
    } else if crate::text::chars_eq(&name, &chars_of("rect")) {
        let x = attr_of(&t, "x");
        let y = attr_of(&t, "y");
        let w = attr_of(&t, "width");
        let h = attr_of(&t, "height");
        match (x, y, w, h) {
            (Some(x), Some(y), Some(w), Some(h)) => {
                let r = attr_of(&t, "rx");
                ShapeKind::Rect { x, y, w, h, r }
            },
            _ => {
                return None;
            },
        }
    } else if crate::text::chars_eq(&name, &chars_of("polyline")) {
        match attr_of(&t, "points") {
            Some(p) => ShapeKind::Polyline(numbers(p.as_str())),
            None => {
                return None;
            },
        }
    } else {
        return None;
    };
    Some((style, kind))
}

/// Where the next tag of `s` starts and ends: from a `<` through the next
/// `>`, or to the end of the text when no `>` follows.
pub open spec fn next_tag_end(s: Seq<char>, start: int) -> int {
    let rel = find_char(s.skip(start), '>');
    if rel >= 0 {
        start + rel + 1
    } else {
        s.len() as int
    }
}

/// The tags of an SVG text, in order.
pub open spec fn svg_tags(s: Seq<char>) -> Seq<Seq<char>>
    decreases s.len(),
{
    let start = find_char(s, '<');
    if start < 0 {
        seq![]
    } else {
        let end = next_tag_end(s, start);
        proof {
            lemma_find_char(s, '<');
            lemma_find_char(s.skip(start), '>');
        }
        seq![s.subrange(start, end)] + svg_tags(s.skip(end))
    }
}

/// The tag names the root element.
pub open spec fn is_root_tag(tag: Seq<char>) -> bool {
    lower_seq(tag_name(tag)) == "svg"@
}

/// The number texts of each root element's `viewBox`, in order.
pub open spec fn spec_view_boxes(tags: Seq<Seq<char>>) -> Seq<Seq<Seq<char>>>
    decreases tags.len(),
{
    if tags.len() == 0 {
        seq![]
    } else {
        let prev = spec_view_boxes(tags.drop_last());
        let tag = tags.last();
        if is_root_tag(tag) {
            match spec_attr(tag, "viewBox"@) {
                Some(vb) => prev.push(spec_numbers(vb)),
                None => prev,
            }
        } else {
            prev
        }
    }
}

/// The drawable elements among the tags, in order.
pub open spec fn spec_shapes(tags: Seq<Seq<char>>) -> Seq<(IconStyle, ShapeView)>
    decreases tags.len(),
{
    if tags.len() == 0 {
        seq![]
    } else {
        let prev = spec_shapes(tags.drop_last());
        let tag = tags.last();
        if is_root_tag(tag) {
            prev
        } else {
            match spec_parse_element(tag) {
                Some(x) => prev.push(x),
                None => prev,
            }
        }
    }
}

/// An icon read from its SVG text, coordinates kept as written.
#[derive(Debug, Clone)]
pub struct SvgIcon {
    /// The number texts of each root `viewBox`, in order. The renderer uses
    /// the last one of at least four numbers with a positive width and
    /// height, and a 24 by 24 canvas when there is none.
    pub view_boxes: Vec<Vec<String>>,
    /// The drawable elements, in document order.
    pub shapes: Vec<(IconStyle, ShapeKind)>,
}

pub open spec fn boxes_view(b: Seq<Vec<String>>) -> Seq<Seq<Seq<char>>> {
    b.map_values(|v: Vec<String>| strings_view(v@))
}

pub open spec fn shapes_view(v: Seq<(IconStyle, ShapeKind)>) -> Seq<(IconStyle, ShapeView)> {
    v.map_values(|x: (IconStyle, ShapeKind)| (x.0, x.1@))
}

proof fn lemma_tags_step(s: Seq<char>, start: int)
    requires
        start == find_char(s, '<'),
        start >= 0,
    ensures
        s[start] == '<',
        start < next_tag_end(s, start) <= s.len(),
        svg_tags(s) == seq![s.subrange(start, next_tag_end(s, start))] + svg_tags(s.skip(next_tag_end(s, start))),
{
    lemma_find_char(s, '<');
    lemma_find_char(s.skip(start), '>');
}

/// Reads an icon: the root's `viewBox` numbers and every `path`, `line`,
/// `circle`, `rect` and `polyline` element, in order; other tags are passed
/// over.
pub fn parse_svg(xml: &str) -> (r: SvgIcon)
    ensures
        boxes_view(r.view_boxes@) == spec_view_boxes(svg_tags(xml@)),
        shapes_view(r.shapes@) == spec_shapes(svg_tags(xml@)),
{
    proof {
        reveal_strlit("svg");
        reveal_strlit("viewBox");
    }
    let mut rest = chars_of(xml);
    let mut view_boxes: Vec<Vec<String>> = Vec::new();
    let mut shapes: Vec<(IconStyle, ShapeKind)> = Vec::new();
    let ghost mut done: Seq<Seq<char>> = seq![];
    let svg_name = chars_of("svg");
    assert(boxes_view(view_boxes@) =~= Seq::<Seq<Seq<char>>>::empty());
    assert(shapes_view(shapes@) =~= Seq::<(IconStyle, ShapeView)>::empty());
    assert(done + svg_tags(rest@) =~= svg_tags(xml@));
    loop
        invariant
            done + svg_tags(rest@) == svg_tags(xml@),
            boxes_view(view_boxes@) == spec_view_boxes(done),
            shapes_view(shapes@) == spec_shapes(done),
            svg_name@ == "svg"@,
        ensures
            done == svg_tags(xml@),
            boxes_view(view_boxes@) == spec_view_boxes(done),
            shapes_view(shapes@) == spec_shapes(done),
        decreases rest@.len(),
    {
        let start = match crate::env::find_char_in(&rest, '<') {
            Some(p) => p,
            None => {
                assert(svg_tags(rest@) =~= Seq::<Seq<char>>::empty());
                assert(done + svg_tags(rest@) =~= done);
                break;
            },
        };
        let after = slice_chars(&rest, start, rest.len());
        assert(after@ == rest@.skip(start as int));
        let end = match crate::env::find_char_in(&after, '>') {
            Some(rel) => start + rel + 1,
            None => rest.len(),
        };
        proof {
            lemma_tags_step(rest@, start as int);
        }
        assert(end as int == next_tag_end(rest@, start as int));
        let tag = slice_chars(&rest, start, end);
        assert(tag@ == rest@.subrange(start as int, end as int));
        assert(tag@[0] == '<');
        let tb = tag_body_exec(&tag);
        let n = first_ws_exec(&tb);
        let name = slice_chars(&tb, 0, n);
        let lname = lower_chars(&name);
        assert(name@ == tag_name(tag@));
        let ghost old_done = done;
        let ts = string_of(&tag);
        if crate::text::chars_eq(&lname, &svg_name) {
            match attr(ts.as_str(), "viewBox") {
                Some(vb) => {
                    let ghost bv = boxes_view(view_boxes@);
                    let nums = numbers(vb.as_str());
                    view_boxes.push(nums);
                    assert(boxes_view(view_boxes@) == bv.push(spec_numbers(vb@)));
                },
                None => {},
            }
        } else {
            match parse_element(ts.as_str()) {
                Some(x) => {
                    let ghost sv = shapes_view(shapes@);
                    let ghost xv = (x.0, x.1@);
                    shapes.push(x);
                    assert(shapes_view(shapes@) == sv.push(xv));
                },
                None => {},
            }
        }
        proof {
            done = old_done.push(tag@);
            assert(done.drop_last() == old_done);
            assert(done.last() == tag@);
            assert(old_done + svg_tags(rest@) == done + svg_tags(rest@.skip(end as int)));
        }
        let next = slice_chars(&rest, end, rest.len());
        assert(next@ == rest@.skip(end as int));
        rest = next;
    }
    SvgIcon { view_boxes, shapes }
}

} // verus!
