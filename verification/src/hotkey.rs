//! Global hotkeys: parsing the configured modifier and key names into
//! Win32 modifier flags and virtual-key codes, naming a virtual key back in
//! the same vocabulary, and mapping navigation keys.

use vstd::prelude::*;
use crate::platform::Key;
use crate::text::{
    chars_of, is_ascii_digit, is_ascii_lower, lower_chars, lower_seq, slice_chars, string_of, trim,
    trim_chars,
};
use crate::util::{decimal, spec_decimal};

verus! {

/// Win32 modifier flags.
pub const MOD_ALT: u32 = 0x0001;
pub const MOD_CONTROL: u32 = 0x0002;
pub const MOD_SHIFT: u32 = 0x0004;
pub const MOD_WIN: u32 = 0x0008;

/// Win32 virtual-key codes used here.
pub const VK_BACK: u16 = 0x08;
pub const VK_TAB: u16 = 0x09;
pub const VK_RETURN: u16 = 0x0D;
pub const VK_ESCAPE: u16 = 0x1B;
pub const VK_SPACE: u16 = 0x20;
pub const VK_PRIOR: u16 = 0x21;
pub const VK_NEXT: u16 = 0x22;
pub const VK_END: u16 = 0x23;
pub const VK_HOME: u16 = 0x24;
pub const VK_LEFT: u16 = 0x25;
pub const VK_UP: u16 = 0x26;
pub const VK_RIGHT: u16 = 0x27;
pub const VK_DOWN: u16 = 0x28;
pub const VK_DELETE: u16 = 0x2E;
pub const VK_OEM_3: u16 = 0xC0;

/// Pieces of `s` between the separators `c` (std `str::split` with a char):
/// `n + 1` pieces for `n` separators.
pub open spec fn split_on(s: Seq<char>, c: char) -> Seq<Seq<char>>
    decreases s.len(),
{
    if s.len() == 0 {
        seq![Seq::empty()]
    } else {
        let p = split_on(s.drop_last(), c);
        if s.last() == c {
            p.push(Seq::empty())
        } else {
            p.update(p.len() - 1, p.last().push(s.last()))
        }
    }
}

proof fn lemma_split_nonempty(s: Seq<char>, c: char)
    ensures
        split_on(s, c).len() >= 1,
    decreases s.len(),
{
    if s.len() > 0 {
        lemma_split_nonempty(s.drop_last(), c);
    }
}

/// The flag a modifier name stands for (`0` for an empty piece), `None` for
/// an unknown name.
pub open spec fn modifier_flag(name: Seq<char>) -> Option<u32> {
    if name == "ctrl"@ || name == "control"@ {
        Some(MOD_CONTROL)
    } else if name == "alt"@ {
        Some(MOD_ALT)
    } else if name == "shift"@ {
        Some(MOD_SHIFT)
    } else if name == "win"@ || name == "super"@ || name == "meta"@ {
        Some(MOD_WIN)
    } else if name.len() == 0 {
        Some(0)
    } else {
        None
    }
}

/// A modifier piece, trimmed and in ASCII lower case.
pub open spec fn norm(piece: Seq<char>) -> Seq<char> {
    lower_seq(trim(piece))
}

/// Every piece of the modifier text is a known name (or empty).
pub open spec fn modifiers_known(modifiers: Seq<char>) -> bool {
    forall|k: int|
        0 <= k < split_on(modifiers, '+').len() ==> (#[trigger] modifier_flag(norm(split_on(modifiers, '+')[k]))) is Some
}

/// Some piece of the modifier text stands for `flag`.
pub open spec fn has_modifier(modifiers: Seq<char>, flag: u32) -> bool {
    exists|k: int|
        0 <= k < split_on(modifiers, '+').len() && #[trigger] modifier_flag(norm(split_on(modifiers, '+')[k]))
            == Some(flag)
}

/// The flags the modifier text switches on, combined (`|` of distinct bits).
pub open spec fn modifier_bits(modifiers: Seq<char>) -> u32 {
    ((if has_modifier(modifiers, MOD_CONTROL) { MOD_CONTROL } else { 0 }) + (if has_modifier(
        modifiers,
        MOD_ALT,
    ) {
        MOD_ALT
    } else {
        0
    }) + (if has_modifier(modifiers, MOD_SHIFT) {
        MOD_SHIFT
    } else {
        0
    }) + (if has_modifier(modifiers, MOD_WIN) {
        MOD_WIN
    } else {
        0
    })) as u32
}

/// Value of a run of decimal digits.
pub open spec fn digits_value(s: Seq<char>) -> int
    decreases s.len(),
{
    if s.len() == 0 {
        0
    } else {
        digits_value(s.drop_last()) * 10 + (s.last() as int - '0' as int)
    }
}

pub open spec fn all_digits(s: Seq<char>) -> bool {
    forall|k: int| 0 <= k < s.len() ==> is_ascii_digit(#[trigger] s[k])
}

/// std `u32::from_str`: an optional `+` and at least one digit, the value
/// fitting in a `u32`.
pub open spec fn spec_parse_u32(s: Seq<char>) -> Option<u32> {
    let d = if s.len() > 0 && s[0] == '+' {
        s.drop_first()
    } else {
        s
    };
    if d.len() == 0 || !all_digits(d) || digits_value(d) > u32::MAX {
        None
    } else {
        Some(digits_value(d) as u32)
    }
}

proof fn lemma_digits_value_mono(s: Seq<char>)
    requires
        all_digits(s),
        s.len() > 0,
    ensures
        digits_value(s) >= digits_value(s.drop_last()) * 10,
        digits_value(s) >= 0,
    decreases s.len(),
{
    assert(is_ascii_digit(s[s.len() - 1]));
    assert(s.last() as int >= '0' as int);
    if s.len() > 1 {
        assert forall|k: int| 0 <= k < s.drop_last().len() implies is_ascii_digit(#[trigger] s.drop_last()[k]) by {
            assert(s.drop_last()[k] == s[k]);
        }
        lemma_digits_value_mono(s.drop_last());
    }
}

proof fn lemma_digits_value_prefix(s: Seq<char>, i: int)
    requires
        all_digits(s),
        0 <= i <= s.len(),
    ensures
        digits_value(s.take(i)) <= digits_value(s),
        digits_value(s.take(i)) >= 0,
    decreases s.len() - i,
{
    if i < s.len() {
        lemma_digits_value_prefix(s, i + 1);
        assert(s.take(i + 1).drop_last() == s.take(i));
        assert forall|k: int| 0 <= k < s.take(i + 1).len() implies is_ascii_digit(#[trigger] s.take(i + 1)[k]) by {
            assert(s.take(i + 1)[k] == s[k]);
        }
        lemma_digits_value_mono(s.take(i + 1));
    } else {
        assert(s.take(i) == s);
        if s.len() > 0 {
            lemma_digits_value_mono(s);
        }
    }
}

/// Parses a decimal `u32` as std `str::parse::<u32>` does.
pub fn parse_u32(s: &[char]) -> (r: Option<u32>)
    ensures
        r == spec_parse_u32(s@),
{
    let start: usize = if s.len() > 0 && s[0] == '+' {
        1
    } else {
        0
    };
    let ghost d = s@.skip(start as int);
    assert(d == (if s@.len() > 0 && s@[0] == '+' {
        s@.drop_first()
    } else {
        s@
    }));
    if start == s.len() {
        return None;
    }
    let mut acc: u64 = 0;
    let mut i: usize = start;
    while i < s.len()
        invariant
            start <= i <= s@.len(),
            d == s@.skip(start as int),
            d == (if s@.len() > 0 && s@[0] == '+' {
                s@.drop_first()
            } else {
                s@
            }),
            d.len() > 0,
            all_digits(d.take(i - start)),
            acc == digits_value(d.take(i - start)),
            acc <= u32::MAX,
        decreases s@.len() - i,
    {
        let c = s[i];
        assert(d[i - start] == c);
        if !('0' <= c && c <= '9') {
            assert(!all_digits(d));
            return None;
        }
        assert(d.take(i - start + 1).drop_last() == d.take(i - start));
        assert(d.take(i - start + 1).last() == c);
        assert forall|k: int| 0 <= k < d.take(i - start + 1).len() implies is_ascii_digit(
            #[trigger] d.take(i - start + 1)[k],
        ) by {
            if k < i - start {
                assert(d.take(i - start + 1)[k] == d.take(i - start)[k]);
            }
        }
        acc = acc * 10 + (c as u64 - '0' as u64);
        if acc > u32::MAX as u64 {
            proof {
                if all_digits(d) {
                    lemma_digits_value_prefix(d, i - start + 1);
                }
            }
            return None;
        }
        i = i + 1;
    }
    assert(d.take(i - start) == d);
    Some(acc as u32)
}

/// The virtual-key code a key name stands for: trimmed and ASCII
/// lower-cased, a single ASCII letter, digit, space or backquote; `f1` to
/// `f24`; or one of the named keys.
pub open spec fn spec_key_code(key: Seq<char>) -> Option<u32> {
    let lower = lower_seq(trim(key));
    if lower.len() == 1 && (lower[0] as u32) < 0x80 {
        let c = lower[0];
        if is_ascii_lower(c) {
            Some((c as u32 - 'a' as u32 + 0x41) as u32)
        } else if is_ascii_digit(c) {
            Some(c as u32)
        } else if c == ' ' {
            Some(0x20)
        } else if c == '`' {
            Some(0xC0)
        } else {
            None
        }
    } else if lower.len() > 0 && lower[0] == 'f' {
        match spec_parse_u32(lower.drop_first()) {
            Some(n) => if 1 <= n <= 24 {
                Some((0x70 + n - 1) as u32)
            } else {
                None
            },
            None => None,
        }
    } else if lower == "space"@ {
        Some(0x20)
    } else if lower == "enter"@ {
        Some(0x0D)
    } else if lower == "esc"@ || lower == "escape"@ {
        Some(0x1B)
    } else if lower == "tab"@ {
        Some(0x09)
    } else if lower == "backspace"@ {
        Some(0x08)
    } else if lower == "delete"@ {
        Some(0x2E)
    } else if lower == "up"@ {
        Some(0x26)
    } else if lower == "down"@ {
        Some(0x28)
    } else if lower == "left"@ {
        Some(0x25)
    } else if lower == "right"@ {
        Some(0x27)
    } else if lower == "tilde"@ {
        Some(0xC0)
    } else {
        None
    }
}

/// What `parse_hotkey` answers: the modifier flags and the key code, or
/// `None` on an unknown modifier or key.
pub open spec fn spec_parse_hotkey(modifiers: Seq<char>, key: Seq<char>) -> Option<(u32, u32)> {
    if !modifiers_known(modifiers) {
        None
    } else {
        match spec_key_code(key) {
            Some(vk) => Some((modifier_bits(modifiers), vk)),
            None => None,
        }
    }
}

fn seq_is(v: &[char], lit: &str) -> (r: bool)
    ensures
        r == (v@ == lit@),
{
    let l = chars_of(lit);
    crate::text::chars_eq(v, &l)
}

fn flag_of(name: &[char]) -> (r: Option<u32>)
    ensures
        r == modifier_flag(name@),
{
    proof {
        reveal_strlit("ctrl");
        reveal_strlit("control");
        reveal_strlit("alt");
        reveal_strlit("shift");
        reveal_strlit("win");
        reveal_strlit("super");
        reveal_strlit("meta");
    }
    if seq_is(name, "ctrl") || seq_is(name, "control") {
        Some(MOD_CONTROL)
    } else if seq_is(name, "alt") {
        Some(MOD_ALT)
    } else if seq_is(name, "shift") {
        Some(MOD_SHIFT)
    } else if seq_is(name, "win") || seq_is(name, "super") || seq_is(name, "meta") {
        Some(MOD_WIN)
    } else if name.len() == 0 {
        Some(0)
    } else {
        None
    }
}

/// Splits `s` at every `c`.
pub fn split_chars(s: &[char], c: char) -> (r: Vec<Vec<char>>)
    ensures
        r@.len() == split_on(s@, c).len(),
        forall|k: int| 0 <= k < r@.len() ==> (#[trigger] r@[k])@ == split_on(s@, c)[k],
{
    let mut out: Vec<Vec<char>> = Vec::new();
    let mut cur: Vec<char> = Vec::new();
    for i in 0..s.len()
        invariant
            out@.len() + 1 == split_on(s@.take(i as int), c).len(),
            forall|k: int| 0 <= k < out@.len() ==> (#[trigger] out@[k])@ == split_on(s@.take(i as int), c)[k],
            cur@ == split_on(s@.take(i as int), c).last(),
    {
        let ghost p = split_on(s@.take(i as int), c);
        assert(s@.take(i + 1).drop_last() == s@.take(i as int));
        assert(s@.take(i + 1).last() == s@[i as int]);
        proof {
            lemma_split_nonempty(s@.take(i as int), c);
        }
        if s[i] == c {
            let done = cur;
            out.push(done);
            cur = Vec::new();
            assert(split_on(s@.take(i + 1), c) == p.push(Seq::<char>::empty()));
        } else {
            cur.push(s[i]);
            assert(split_on(s@.take(i + 1), c) == p.update(p.len() - 1, p.last().push(s@[i as int])));
        }
    }
    assert(s@.take(s@.len() as int) == s@);
    proof {
        lemma_split_nonempty(s@, c);
    }
    out.push(cur);
    out
}

fn key_code(key: &str) -> (r: Option<u32>)
    ensures
        r == spec_key_code(key@),
{
    let kv = chars_of(key);
    let kt = trim_chars(&kv);
    let lower = lower_chars(&kt);
    if lower.len() == 1 && (lower[0] as u32) < 0x80 {
        let c = lower[0];
        return if 'a' <= c && c <= 'z' {
            Some(c as u32 - 'a' as u32 + 0x41)
        } else if '0' <= c && c <= '9' {
            Some(c as u32)
        } else if c == ' ' {
            Some(0x20)
        } else if c == '`' {
            Some(0xC0)
        } else {
            None
        };
    }
    if lower.len() > 0 && lower[0] == 'f' {
        let num = slice_chars(&lower, 1, lower.len());
        assert(num@ == lower@.drop_first());
        return match parse_u32(&num) {
            Some(n) => if 1 <= n && n <= 24 {
                Some(0x70 + n - 1)
            } else {
                None
            },
            None => None,
        };
    }
    proof {
        reveal_strlit("space");
        reveal_strlit("enter");
        reveal_strlit("esc");
        reveal_strlit("escape");
        reveal_strlit("tab");
        reveal_strlit("backspace");
        reveal_strlit("delete");
        reveal_strlit("up");
        reveal_strlit("down");
        reveal_strlit("left");
        reveal_strlit("right");
        reveal_strlit("tilde");
    }
    if seq_is(&lower, "space") {
        Some(0x20)
    } else if seq_is(&lower, "enter") {
        Some(0x0D)
    } else if seq_is(&lower, "esc") || seq_is(&lower, "escape") {
        Some(0x1B)
    } else if seq_is(&lower, "tab") {
        Some(0x09)
    } else if seq_is(&lower, "backspace") {
        Some(0x08)
    } else if seq_is(&lower, "delete") {
        Some(0x2E)
    } else if seq_is(&lower, "up") {
        Some(0x26)
    } else if seq_is(&lower, "down") {
        Some(0x28)
    } else if seq_is(&lower, "left") {
        Some(0x25)
    } else if seq_is(&lower, "right") {
        Some(0x27)
    } else if seq_is(&lower, "tilde") {
        Some(0xC0)
    } else {
        None
    }
}

/// Parses a configured hotkey: modifiers joined by `+` (`ctrl`/`control`,
/// `alt`, `shift`, `win`/`super`/`meta`, any case, blanks ignored) and a key
/// name; the Win32 modifier flags and virtual-key code, or `None` when a
/// name is unknown.
pub fn parse_hotkey(modifiers: &str, key: &str) -> (r: Option<(u32, u32)>)
    ensures
        r == spec_parse_hotkey(modifiers@, key@),
{
    let mv = chars_of(modifiers);
    let parts = split_chars(&mv, '+');
    let ghost sp = split_on(modifiers@, '+');
    let mut ctrl = false;
    let mut alt = false;
    let mut shift = false;
    let mut win = false;
    for k in 0..parts.len()
        invariant
            mv@ == modifiers@,
            sp == split_on(modifiers@, '+'),
            parts@.len() == sp.len(),
            forall|i: int| 0 <= i < parts@.len() ==> (#[trigger] parts@[i])@ == sp[i],
            forall|i: int| 0 <= i < k ==> (#[trigger] modifier_flag(norm(sp[i]))) is Some,
            ctrl == exists|i: int| 0 <= i < k && #[trigger] modifier_flag(norm(sp[i])) == Some(MOD_CONTROL),
            alt == exists|i: int| 0 <= i < k && #[trigger] modifier_flag(norm(sp[i])) == Some(MOD_ALT),
            shift == exists|i: int| 0 <= i < k && #[trigger] modifier_flag(norm(sp[i])) == Some(MOD_SHIFT),
            win == exists|i: int| 0 <= i < k && #[trigger] modifier_flag(norm(sp[i])) == Some(MOD_WIN),
    {
        let t = trim_chars(&parts[k]);
        let n = lower_chars(&t);
        assert(n@ == norm(sp[k as int]));
        match flag_of(&n) {
            None => {
                assert(!modifiers_known(modifiers@));
                return None;
            },
            Some(f) => {
                if f == MOD_CONTROL {
                    ctrl = true;
                } else if f == MOD_ALT {
                    alt = true;
                } else if f == MOD_SHIFT {
                    shift = true;
                } else if f == MOD_WIN {
                    win = true;
                }
            },
        }
    }
    let mods: u32 = (if ctrl {
        MOD_CONTROL
    } else {
        0
    }) + (if alt {
        MOD_ALT
    } else {
        0
    }) + (if shift {
        MOD_SHIFT
    } else {
        0
    }) + (if win {
        MOD_WIN
    } else {
        0
    });
    match key_code(key) {
        Some(vk) => Some((mods, vk)),
        None => None,
    }
}

/// The name of a virtual key in the vocabulary `parse_hotkey` reads.
pub open spec fn spec_vk_name(vk: u16) -> Option<Seq<char>> {
    if 0x30 <= vk <= 0x39 {
        Some(seq![(vk as u32) as char])
    } else if 0x41 <= vk <= 0x5A {
        Some(seq![((vk + 32) as u32) as char])
    } else if 0x70 <= vk <= 0x87 {
        Some(seq!['f'] + spec_decimal((vk - 0x70 + 1) as nat))
    } else if vk == VK_SPACE {
        Some("space"@)
    } else if vk == VK_RETURN {
        Some("enter"@)
    } else if vk == VK_ESCAPE {
        Some("esc"@)
    } else if vk == VK_TAB {
        Some("tab"@)
    } else if vk == VK_BACK {
        Some("backspace"@)
    } else if vk == VK_DELETE {
        Some("delete"@)
    } else if vk == VK_UP {
        Some("up"@)
    } else if vk == VK_DOWN {
        Some("down"@)
    } else if vk == VK_LEFT {
        Some("left"@)
    } else if vk == VK_RIGHT {
        Some("right"@)
    } else if vk == VK_OEM_3 {
        Some("tilde"@)
    } else {
        None
    }
}

/// The hotkey name of a virtual key (digits, lower-case letters, `f1` to
/// `f24` and the named keys); `None` for other keys.
pub fn vk_name(vk: u16) -> (r: Option<String>)
    ensures
        match r {
            Some(s) => spec_vk_name(vk) == Some(s@),
            None => spec_vk_name(vk) is None,
        },
{
    if 0x30 <= vk && vk <= 0x39 {
        let c = (vk as u8) as char;
        let mut s = String::new();
        crate::text::string_push(&mut s, c);
        return Some(s);
    }
    if 0x41 <= vk && vk <= 0x5A {
        let c = ((vk + 32) as u8) as char;
        let mut s = String::new();
        crate::text::string_push(&mut s, c);
        return Some(s);
    }
    if 0x70 <= vk && vk <= 0x87 {
        let mut v: Vec<char> = Vec::new();
        v.push('f');
        let d = decimal((vk - 0x70 + 1) as u64);
        crate::text::extend_chars(&mut v, &d);
        assert(v@ =~= seq!['f'] + spec_decimal((vk - 0x70 + 1) as nat));
        return Some(string_of(&v));
    }
    let name: &str = if vk == VK_SPACE {
        "space"
    } else if vk == VK_RETURN {
        "enter"
    } else if vk == VK_ESCAPE {
        "esc"
    } else if vk == VK_TAB {
        "tab"
    } else if vk == VK_BACK {
        "backspace"
    } else if vk == VK_DELETE {
        "delete"
    } else if vk == VK_UP {
        "up"
    } else if vk == VK_DOWN {
        "down"
    } else if vk == VK_LEFT {
        "left"
    } else if vk == VK_RIGHT {
        "right"
    } else if vk == VK_OEM_3 {
        "tilde"
    } else {
        return None;
    };
    Some(name.to_string())
}

pub open spec fn spec_map_key(vk: u16) -> Option<Key> {
    if vk == VK_UP {
        Some(Key::Up)
    } else if vk == VK_DOWN {
        Some(Key::Down)
    } else if vk == VK_LEFT {
        Some(Key::Left)
    } else if vk == VK_RIGHT {
        Some(Key::Right)
    } else if vk == VK_RETURN {
        Some(Key::Enter)
    } else if vk == VK_ESCAPE {
        Some(Key::Escape)
    } else if vk == VK_TAB {
        Some(Key::Tab)
    } else if vk == VK_HOME {
        Some(Key::Home)
    } else if vk == VK_END {
        Some(Key::End)
    } else if vk == VK_PRIOR {
        Some(Key::PageUp)
    } else if vk == VK_NEXT {
        Some(Key::PageDown)
    } else if vk == VK_DELETE {
        Some(Key::Delete)
    } else {
        None
    }
}

/// The navigation key of a virtual-key code, if it is one.
pub fn map_key(vk: u16) -> (r: Option<Key>)
    ensures
        r == spec_map_key(vk),
{
    if vk == VK_UP {
        Some(Key::Up)
    } else if vk == VK_DOWN {
        Some(Key::Down)
    } else if vk == VK_LEFT {
        Some(Key::Left)
    } else if vk == VK_RIGHT {
        Some(Key::Right)
    } else if vk == VK_RETURN {
        Some(Key::Enter)
    } else if vk == VK_ESCAPE {
        Some(Key::Escape)
    } else if vk == VK_TAB {
        Some(Key::Tab)
    } else if vk == VK_HOME {
        Some(Key::Home)
    } else if vk == VK_END {
        Some(Key::End)
    } else if vk == VK_PRIOR {
        Some(Key::PageUp)
    } else if vk == VK_NEXT {
        Some(Key::PageDown)
    } else if vk == VK_DELETE {
        Some(Key::Delete)
    } else {
        None
    }
}

proof fn lemma_decimal_digits(n: nat)
    ensures
        all_digits(spec_decimal(n)),
        digits_value(spec_decimal(n)) == n,
        spec_decimal(n).len() > 0,
        spec_decimal(n)[0] != '+',
    decreases n,
{
    if n < 10 {
        let c = crate::util::digit_char(n);
        assert((c as int) == n + 48);
        let s = spec_decimal(n);
        assert(s == seq![c]);
        assert(s.drop_last() =~= Seq::<char>::empty());
        assert(digits_value(s) == digits_value(s.drop_last()) * 10 + (s.last() as int - '0' as int));
        assert(digits_value(Seq::<char>::empty()) == 0);
    } else {
        lemma_decimal_digits(n / 10);
        vstd::arithmetic::div_mod::lemma_fundamental_div_mod(n as int, 10);
        let d = n % 10;
        assert(((((d + 48) as u8) as char) as int) == d + 48);
        let p = spec_decimal(n / 10);
        let s = spec_decimal(n);
        assert(s == p.push(crate::util::digit_char(n % 10)));
        assert(s.drop_last() == p);
        assert forall|k: int| 0 <= k < s.len() implies is_ascii_digit(#[trigger] s[k]) by {
            if k < p.len() {
                assert(s[k] == p[k]);
            }
        }
        assert(s[0] == p[0]);
    }
}

proof fn lemma_no_blank_trim(s: Seq<char>)
    requires
        forall|k: int| 0 <= k < s.len() ==> !crate::text::spec_is_whitespace(#[trigger] s[k]),
    ensures
        trim(s) == s,
{
    if s.len() > 0 {
        assert(!crate::text::spec_is_whitespace(s[0]));
        assert(crate::text::trim_start(s) == s);
        assert(!crate::text::spec_is_whitespace(s.last()));
    }
}

/// Key names are made of ASCII letters and digits.
proof fn lemma_vk_name_plain(vk: u16)
    requires
        spec_vk_name(vk) is Some,
    ensures
        forall|k: int|
            0 <= k < spec_vk_name(vk)->0.len() ==> crate::text::is_ascii_alnum(#[trigger] spec_vk_name(vk)->0[k]),
        forall|k: int|
            0 <= k < spec_vk_name(vk)->0.len() ==> !crate::text::spec_is_whitespace(#[trigger] spec_vk_name(vk)->0[k]),
{
    let name = spec_vk_name(vk)->0;
    reveal_strlit("space");
    reveal_strlit("enter");
    reveal_strlit("esc");
    reveal_strlit("tab");
    reveal_strlit("backspace");
    reveal_strlit("delete");
    reveal_strlit("up");
    reveal_strlit("down");
    reveal_strlit("left");
    reveal_strlit("right");
    reveal_strlit("tilde");
    assert forall|k: int| 0 <= k < name.len() implies crate::text::is_ascii_alnum(#[trigger] name[k]) by {
        if 0x70 <= vk <= 0x87 && k > 0 {
            lemma_decimal_digits((vk - 0x70 + 1) as nat);
            assert(name[k] == spec_decimal((vk - 0x70 + 1) as nat)[k - 1]);
        }
    }
}

/// A key's name reads back as the same key: `parse_hotkey("", name)` gives
/// the key's code and no modifier, for every name `vk_name` produces.
pub proof fn lemma_key_name_round_trip(vk: u16)
    requires
        spec_vk_name(vk) is Some,
    ensures
        spec_parse_hotkey(Seq::empty(), spec_vk_name(vk)->0) == Some((0u32, vk as u32)),
{
    let name = spec_vk_name(vk)->0;
    lemma_vk_name_plain(vk);
    reveal_strlit("ctrl");
    reveal_strlit("control");
    reveal_strlit("alt");
    reveal_strlit("shift");
    reveal_strlit("win");
    reveal_strlit("super");
    reveal_strlit("meta");
    lemma_no_blank_trim(name);
    assert(split_on(Seq::<char>::empty(), '+') == seq![Seq::<char>::empty()]);
    let e = Seq::<char>::empty();
    assert(trim(e) == e);
    assert(lower_seq(e) =~= e);
    assert(modifier_flag(norm(e)) == Some(0u32));
    assert(modifiers_known(Seq::empty()));
    assert(!has_modifier(Seq::empty(), MOD_CONTROL));
    assert(!has_modifier(Seq::empty(), MOD_ALT));
    assert(!has_modifier(Seq::empty(), MOD_SHIFT));
    assert(!has_modifier(Seq::empty(), MOD_WIN));
    reveal_strlit("space");
    reveal_strlit("enter");
    reveal_strlit("esc");
    reveal_strlit("escape");
    reveal_strlit("tab");
    reveal_strlit("backspace");
    reveal_strlit("delete");
    reveal_strlit("up");
    reveal_strlit("down");
    reveal_strlit("left");
    reveal_strlit("right");
    reveal_strlit("tilde");
    assert(lower_seq(name) =~= name) by {
        if 0x70 <= vk <= 0x87 {
            lemma_decimal_digits((vk - 0x70 + 1) as nat);
            assert forall|k: int| 0 <= k < name.len() implies #[trigger] crate::text::lower_char(name[k]) == name[k] by {
                if k > 0 {
                    assert(name[k] == spec_decimal((vk - 0x70 + 1) as nat)[k - 1]);
                    assert(is_ascii_digit(spec_decimal((vk - 0x70 + 1) as nat)[k - 1]));
                }
            }
        }
    }
    assert(modifier_bits(Seq::empty()) == 0);
    assert(trim(name) == name);
    let lower = lower_seq(trim(name));
    assert(lower == name);
    if 0x30 <= vk <= 0x39 {
        assert(name.len() == 1 && name[0] == (vk as u32) as char);
        assert((name[0] as u32) == vk as u32);
        assert(spec_key_code(name) == Some(vk as u32));
    } else if 0x41 <= vk <= 0x5A {
        assert(name.len() == 1 && name[0] == ((vk + 32) as u32) as char);
        assert((name[0] as u32) == vk + 32);
        assert(is_ascii_lower(name[0]));
        assert(spec_key_code(name) == Some(vk as u32));
    } else if 0x70 <= vk <= 0x87 {
        let n = (vk - 0x70 + 1) as nat;
        lemma_decimal_digits(n);
        assert(name.drop_first() == spec_decimal(n));
        assert(spec_parse_u32(spec_decimal(n)) == Some(n as u32));
        if n < 10 {
            assert(spec_decimal(n).len() == 1);
        } else {
            assert(spec_decimal(n) == spec_decimal(n / 10).push(crate::util::digit_char(n % 10)));
        }
        assert(name.len() >= 2);
        assert(lower[0] == 'f');
        assert(spec_key_code(name) == Some(vk as u32));
    } else if vk == VK_SPACE {
        assert(name == "space"@ && name.len() == 5 && name[0] == 's');
        assert(spec_key_code(name) == Some(vk as u32));
    } else if vk == VK_RETURN {
        assert(name == "enter"@ && name.len() == 5 && name[0] == 'e');
        assert(spec_key_code(name) == Some(vk as u32));
    } else if vk == VK_ESCAPE {
        assert(name == "esc"@ && name.len() == 3 && name[0] == 'e');
        assert(spec_key_code(name) == Some(vk as u32));
    } else if vk == VK_TAB {
        assert(name == "tab"@ && name.len() == 3 && name[0] == 't');
        assert(name != "esc"@) by {
            assert("esc"@[0] == 'e');
        }
        assert(spec_key_code(name) == Some(vk as u32));
    } else if vk == VK_BACK {
        assert(name == "backspace"@ && name[0] == 'b' && name.len() == 9);
        assert(spec_key_code(name) == Some(vk as u32));
    } else if vk == VK_DELETE {
        assert(name == "delete"@ && name[0] == 'd');
        assert(spec_key_code(name) == Some(vk as u32));
    } else if vk == VK_UP {
        assert(name == "up"@ && name[0] == 'u');
        assert(spec_key_code(name) == Some(vk as u32));
    } else if vk == VK_DOWN {
        assert(name == "down"@ && name[0] == 'd');
        assert(spec_key_code(name) == Some(vk as u32));
    } else if vk == VK_LEFT {
        assert(name == "left"@ && name[0] == 'l');
        assert(spec_key_code(name) == Some(vk as u32));
    } else if vk == VK_RIGHT {
        assert(name == "right"@ && name[0] == 'r');
        assert(spec_key_code(name) == Some(vk as u32));
    } else {
        assert(name == "tilde"@ && name[0] == 't');
        assert(spec_key_code(name) == Some(vk as u32));
    }
}

/// The names of the modifier keys held down, in `ctrl, alt, shift, win` order.
pub open spec fn chord_parts(ctrl: bool, alt: bool, shift: bool, win: bool) -> Seq<Seq<char>> {
    (if ctrl { seq!["ctrl"@] } else { seq![] }) + (if alt { seq!["alt"@] } else { seq![] }) + (if shift {
        seq!["shift"@]
    } else {
        seq![]
    }) + (if win { seq!["win"@] } else { seq![] })
}

/// The modifier text of the keys held down, in `ctrl+alt+shift+win` order.
pub open spec fn spec_chord(ctrl: bool, alt: bool, shift: bool, win: bool) -> Seq<char> {
    crate::item::join(chord_parts(ctrl, alt, shift, win), "+"@)
}

fn push_part(out: &mut Vec<char>, first: &mut bool, part: &str)
    ensures
        *final(first) == false,
        final(out)@ == (if *old(first) { old(out)@ + part@ } else { old(out)@ + "+"@ + part@ }),
{
    proof {
        reveal_strlit("+");
    }
    if !*first {
        out.push('+');
    }
    let p = chars_of(part);
    crate::text::extend_chars(out, &p);
    *first = false;
    proof {
        assert(old(out)@.push('+') == old(out)@ + "+"@);
    }
}

/// The modifier text recorded for a chord: the names of the held modifiers
/// joined with `+`, in `ctrl+alt+shift+win` order (the form `parse_hotkey`
/// reads).
pub fn modifier_chord(ctrl: bool, alt: bool, shift: bool, win: bool) -> (r: String)
    ensures
        r@ == spec_chord(ctrl, alt, shift, win),
{
    let ghost mut parts: Seq<Seq<char>> = seq![];
    let mut out: Vec<char> = Vec::new();
    let mut first = true;
    if ctrl {
        push_part(&mut out, &mut first, "ctrl");
        proof { parts = parts.push("ctrl"@); }
    }
    assert(out@ == crate::item::join(parts, "+"@) && (first <==> parts.len() == 0));
    if alt {
        let ghost before = parts;
        push_part(&mut out, &mut first, "alt");
        proof { parts = parts.push("alt"@); assert(parts.drop_last() == before); }
    }
    assert(out@ == crate::item::join(parts, "+"@) && (first <==> parts.len() == 0));
    if shift {
        let ghost before = parts;
        push_part(&mut out, &mut first, "shift");
        proof { parts = parts.push("shift"@); assert(parts.drop_last() == before); }
    }
    assert(out@ == crate::item::join(parts, "+"@) && (first <==> parts.len() == 0));
    if win {
        let ghost before = parts;
        push_part(&mut out, &mut first, "win");
        proof { parts = parts.push("win"@); assert(parts.drop_last() == before); }
    }
    assert(parts =~= chord_parts(ctrl, alt, shift, win));
    string_of(&out)
}

proof fn lemma_split_plain(w: Seq<char>, c: char)
    requires
        forall|i: int| 0 <= i < w.len() ==> #[trigger] w[i] != c,
    ensures
        split_on(w, c) == seq![w],
    decreases w.len(),
{
    if w.len() > 0 {
        lemma_split_plain(w.drop_last(), c);
        assert(w.last() == w[w.len() - 1]);
        assert(w.drop_last().push(w.last()) =~= w);
        assert(seq![w.drop_last()].update(0, w.drop_last().push(w.last())) =~= seq![w]);
    } else {
        assert(w =~= Seq::<char>::empty());
    }
}

proof fn lemma_split_after(s: Seq<char>, x: Seq<char>, c: char)
    requires
        forall|i: int| 0 <= i < x.len() ==> #[trigger] x[i] != c,
    ensures
        split_on(s + seq![c] + x, c) == split_on(s, c).push(x),
    decreases x.len(),
{
    lemma_split_nonempty(s, c);
    if x.len() == 0 {
        assert(s + seq![c] + x =~= s.push(c));
        assert((s.push(c)).drop_last() =~= s);
        assert(x =~= Seq::<char>::empty());
    } else {
        let y = x.drop_last();
        lemma_split_after(s, y, c);
        let t = s + seq![c] + x;
        assert(t.drop_last() =~= s + seq![c] + y);
        assert(t.last() == x[x.len() - 1]);
        let q = split_on(s, c).push(y);
        assert(y.push(x[x.len() - 1]) =~= x);
        assert(q.last() == y);
        assert(q.update(q.len() - 1, q.last().push(t.last())) =~= split_on(s, c).push(x));
    }
}

/// The four modifier names.
pub open spec fn is_mod_name(w: Seq<char>) -> bool {
    w == "ctrl"@ || w == "alt"@ || w == "shift"@ || w == "win"@
}

proof fn lemma_mod_name(w: Seq<char>)
    requires
        is_mod_name(w),
    ensures
        forall|i: int| 0 <= i < w.len() ==> 'a' <= #[trigger] w[i] <= 'z',
        w.len() > 0,
        norm(w) == w,
        modifier_flag(w) == Some(if w == "ctrl"@ {
            MOD_CONTROL
        } else if w == "alt"@ {
            MOD_ALT
        } else if w == "shift"@ {
            MOD_SHIFT
        } else {
            MOD_WIN
        }),
{
    reveal_strlit("ctrl");
    reveal_strlit("control");
    reveal_strlit("alt");
    reveal_strlit("shift");
    reveal_strlit("win");
    reveal_strlit("super");
    reveal_strlit("meta");
    assert(crate::text::trim_start(w) == w);
    assert(w.last() == w[w.len() - 1]);
    assert(crate::text::trim_end(w) == w);
    assert(lower_seq(w) =~= w);
}

proof fn lemma_split_join(parts: Seq<Seq<char>>)
    requires
        parts.len() > 0,
        forall|k: int| 0 <= k < parts.len() ==> is_mod_name(#[trigger] parts[k]),
    ensures
        split_on(crate::item::join(parts, "+"@), '+') == parts,
    decreases parts.len(),
{
    reveal_strlit("+");
    let x = parts.last();
    lemma_mod_name(parts[parts.len() - 1]);
    assert forall|i: int| 0 <= i < x.len() implies #[trigger] x[i] != '+' by {
        assert('a' <= x[i] <= 'z');
    }
    if parts.len() == 1 {
        lemma_split_plain(parts[0], '+');
        assert(seq![parts[0]] =~= parts);
    } else {
        let p = parts.drop_last();
        assert forall|k: int| 0 <= k < p.len() implies is_mod_name(#[trigger] p[k]) by {
            assert(p[k] == parts[k]);
        }
        lemma_split_join(p);
        assert(crate::item::join(parts, "+"@) == crate::item::join(p, "+"@) + seq!['+'] + x);
        lemma_split_after(crate::item::join(p, "+"@), x, '+');
        assert(p.push(x) =~= parts);
    }
}

/// A chord recorded from the modifier keys held down reads back, through
/// `parse_hotkey`, as exactly those modifiers.
pub proof fn lemma_chord_read_back(ctrl: bool, alt: bool, shift: bool, win: bool)
    ensures
        modifiers_known(spec_chord(ctrl, alt, shift, win)),
        has_modifier(spec_chord(ctrl, alt, shift, win), MOD_CONTROL) == ctrl,
        has_modifier(spec_chord(ctrl, alt, shift, win), MOD_ALT) == alt,
        has_modifier(spec_chord(ctrl, alt, shift, win), MOD_SHIFT) == shift,
        has_modifier(spec_chord(ctrl, alt, shift, win), MOD_WIN) == win,
        modifier_bits(spec_chord(ctrl, alt, shift, win)) == (if ctrl { MOD_CONTROL } else { 0 }) + (if alt {
            MOD_ALT
        } else {
            0
        }) + (if shift { MOD_SHIFT } else { 0 }) + (if win { MOD_WIN } else { 0 }),
{
    reveal_strlit("ctrl");
    reveal_strlit("control");
    reveal_strlit("alt");
    reveal_strlit("shift");
    reveal_strlit("win");
    reveal_strlit("super");
    reveal_strlit("meta");
    let parts = chord_parts(ctrl, alt, shift, win);
    let chord = spec_chord(ctrl, alt, shift, win);
    assert forall|k: int| 0 <= k < parts.len() implies is_mod_name(#[trigger] parts[k]) by {
    }
    assert(("ctrl"@ != "alt"@) && ("ctrl"@ != "shift"@) && ("ctrl"@ != "win"@) && ("alt"@ != "shift"@) && ("alt"@
        != "win"@) && ("shift"@ != "win"@)) by {
        assert("ctrl"@[0] != "alt"@[0]);
        assert("ctrl"@[0] != "shift"@[0]);
        assert("ctrl"@[0] != "win"@[0]);
        assert("alt"@[0] != "shift"@[0]);
        assert("alt"@[0] != "win"@[0]);
        assert("shift"@[0] != "win"@[0]);
    }
    let pieces = split_on(chord, '+');
    if parts.len() == 0 {
        assert(chord =~= Seq::<char>::empty());
        assert(pieces == seq![Seq::<char>::empty()]);
        assert(norm(Seq::<char>::empty()) =~= Seq::<char>::empty());
        assert(modifier_flag(norm(pieces[0])) == Some(0u32));
    } else {
        lemma_split_join(parts);
        assert(pieces == parts);
        assert forall|k: int| 0 <= k < pieces.len() implies #[trigger] modifier_flag(norm(pieces[k])) is Some by {
            lemma_mod_name(pieces[k]);
        }
        assert forall|k: int| 0 <= k < pieces.len() implies #[trigger] modifier_flag(norm(pieces[k])) == Some(
            if pieces[k] == "ctrl"@ {
                MOD_CONTROL
            } else if pieces[k] == "alt"@ {
                MOD_ALT
            } else if pieces[k] == "shift"@ {
                MOD_SHIFT
            } else {
                MOD_WIN
            },
        ) by {
            lemma_mod_name(pieces[k]);
        }
        if ctrl {
            assert(pieces[0] == "ctrl"@);
            assert(modifier_flag(norm(pieces[0])) == Some(MOD_CONTROL));
        }
        let ia = if ctrl { 1int } else { 0int };
        if alt {
            assert(pieces[ia] == "alt"@);
            assert(modifier_flag(norm(pieces[ia])) == Some(MOD_ALT));
        }
        let is = ia + if alt { 1int } else { 0int };
        if shift {
            assert(pieces[is] == "shift"@);
            assert(modifier_flag(norm(pieces[is])) == Some(MOD_SHIFT));
        }
        let iw = is + if shift { 1int } else { 0int };
        if win {
            assert(pieces[iw] == "win"@);
            assert(modifier_flag(norm(pieces[iw])) == Some(MOD_WIN));
        }
    }
}

/// A hotkey recorded from the keys pressed (the held modifiers and the key's
/// name) registers as exactly those modifiers and that key.
pub proof fn lemma_recorded_hotkey_registers(ctrl: bool, alt: bool, shift: bool, win: bool, vk: u16)
    requires
        spec_vk_name(vk) is Some,
    ensures
        spec_parse_hotkey(spec_chord(ctrl, alt, shift, win), spec_vk_name(vk)->0) == Some(
            (
                ((if ctrl { MOD_CONTROL } else { 0 }) + (if alt { MOD_ALT } else { 0 }) + (if shift {
                    MOD_SHIFT
                } else {
                    0
                }) + (if win { MOD_WIN } else { 0 })) as u32,
                vk as u32,
            ),
        ),
{
    lemma_key_name_round_trip(vk);
    lemma_chord_read_back(ctrl, alt, shift, win);
}

/// Attempts at registering a hotkey before giving up (another thread may
/// still hold the same combination for a moment).
pub const HOTKEY_ATTEMPTS: u32 = 20;

/// Pause after each failed attempt, in milliseconds.
pub const HOTKEY_RETRY_MS: u64 = 10;

/// What the hotkey thread does after an attempt at registering.
#[derive(Debug, Clone, Copy, PartialEq, Eq, Structural)]
pub enum RegisterStep {
    /// The hotkey is registered: run the message loop.
    Registered,
    /// Wait `HOTKEY_RETRY_MS` and try again.
    Retry,
    /// Wait `HOTKEY_RETRY_MS`, then give up and tear the window down.
    GiveUp,
}

/// The step after attempt number `attempt` (counting from 1) at
/// registering a hotkey, which succeeded or not.
pub fn register_step(attempt: u32, registered: bool) -> (r: RegisterStep)
    requires
        1 <= attempt <= HOTKEY_ATTEMPTS,
    ensures
        r == (if registered {
            RegisterStep::Registered
        } else if attempt < HOTKEY_ATTEMPTS {
            RegisterStep::Retry
        } else {
            RegisterStep::GiveUp
        }),
{
    if registered {
        RegisterStep::Registered
    } else if attempt < HOTKEY_ATTEMPTS {
        RegisterStep::Retry
    } else {
        RegisterStep::GiveUp
    }
}

} // verus!
