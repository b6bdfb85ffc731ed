//! Small text encoders: decimal numbers and URL components.

use vstd::prelude::*;
use crate::text::string_push;

verus! {

pub open spec fn digit_char(d: nat) -> char
    recommends
        d < 10,
{
    ((d + 48) as u8) as char
}

/// Decimal digits of `n`, most significant first, no leading zeros.
pub open spec fn spec_decimal(n: nat) -> Seq<char>
    decreases n,
{
    if n < 10 {
        seq![digit_char(n)]
    } else {
        spec_decimal(n / 10).push(digit_char(n % 10))
    }
}

/// Decimal digits of `n` (as `format!("{}", n)` writes them).
pub fn decimal(n: u64) -> (r: Vec<char>)
    ensures
        r@ == spec_decimal(n as nat),
    decreases n,
{
    if n < 10 {
        let c = ((n as u8) + 48) as char;
        vec![c]
    } else {
        let mut r = decimal(n / 10);
        let c = (((n % 10) as u8) + 48) as char;
        r.push(c);
        r
    }
}

/// The RFC 3986 unreserved bytes: `A-Z a-z 0-9 - _ . ~`.
pub open spec fn is_unreserved(b: u8) -> bool {
    (65 <= b <= 90) || (97 <= b <= 122) || (48 <= b <= 57) || b == 45 || b == 95 || b == 46
        || b == 126
}

/// Upper-case hexadecimal digit.
pub open spec fn hex_digit(d: u8) -> char
    recommends
        d < 16,
{
    if d < 10 {
        ((d + 48) as u8) as char
    } else {
        ((d + 55) as u8) as char
    }
}

/// The encoding of one byte: itself when unreserved, `%XX` otherwise.
pub open spec fn encode_byte(b: u8) -> Seq<char> {
    if is_unreserved(b) {
        seq![b as char]
    } else {
        seq!['%', hex_digit(b / 16), hex_digit(b % 16)]
    }
}

/// Percent-encoding of a byte string.
pub open spec fn spec_percent_encode(bytes: Seq<u8>) -> Seq<char>
    decreases bytes.len(),
{
    if bytes.len() == 0 {
        seq![]
    } else {
        spec_percent_encode(bytes.drop_last()) + encode_byte(bytes.last())
    }
}

/// Value of a hexadecimal digit (either case); other characters count as zero.
pub open spec fn hex_value(c: char) -> int {
    if '0' <= c <= '9' {
        c as int - 48
    } else if 'A' <= c <= 'F' {
        c as int - 55
    } else if 'a' <= c <= 'f' {
        c as int - 87
    } else {
        0
    }
}

/// Percent-decoding: `%XX` gives the byte `0xXX`, any other character gives
/// its own code (truncated to a byte).
pub open spec fn percent_decode(s: Seq<char>) -> Seq<u8>
    decreases s.len(),
{
    if s.len() == 0 {
        seq![]
    } else if s[0] == '%' && s.len() >= 3 {
        seq![(hex_value(s[1]) * 16 + hex_value(s[2])) as u8] + percent_decode(s.skip(3))
    } else {
        seq![s[0] as u8] + percent_decode(s.skip(1))
    }
}

proof fn lemma_encode_concat(a: Seq<u8>, b: Seq<u8>)
    ensures
        spec_percent_encode(a + b) == spec_percent_encode(a) + spec_percent_encode(b),
    decreases b.len(),
{
    if b.len() == 0 {
        assert(a + b =~= a);
        assert(spec_percent_encode(a) + spec_percent_encode(b) =~= spec_percent_encode(a));
    } else {
        assert((a + b).drop_last() =~= a + b.drop_last());
        assert((a + b).last() == b.last());
        lemma_encode_concat(a, b.drop_last());
        assert(spec_percent_encode(a + b) =~= spec_percent_encode(a) + spec_percent_encode(b));
    }
}

proof fn lemma_decode_one(b: u8, rest: Seq<char>)
    ensures
        percent_decode(encode_byte(b) + rest) == seq![b] + percent_decode(rest),
{
    let s = encode_byte(b) + rest;
    if is_unreserved(b) {
        assert(s[0] == b as char);
        assert(s.skip(1) =~= rest);
        assert((b as char) as u8 == b);
    } else {
        assert(s[0] == '%');
        assert(s[1] == hex_digit(b / 16));
        assert(s[2] == hex_digit(b % 16));
        assert(s.skip(3) =~= rest);
        assert(hex_value(hex_digit(b / 16)) == b / 16);
        assert(hex_value(hex_digit(b % 16)) == b % 16);
        assert(((b / 16) * 16 + b % 16) as u8 == b);
    }
}

/// Percent-decoding the encoding of any byte string gives that byte string
/// back: the encoding loses nothing.
pub proof fn lemma_percent_decode_round_trip(bytes: Seq<u8>)
    ensures
        percent_decode(spec_percent_encode(bytes)) == bytes,
    decreases bytes.len(),
{
    if bytes.len() == 0 {
        assert(percent_decode(spec_percent_encode(bytes)) =~= bytes);
    } else {
        let head = seq![bytes[0]];
        let tail = bytes.skip(1);
        assert(bytes =~= head + tail);
        lemma_encode_concat(head, tail);
        assert(head.drop_last() =~= Seq::<u8>::empty());
        assert(spec_percent_encode(head.drop_last()) =~= Seq::<char>::empty());
        assert(head.last() == bytes[0]);
        assert(spec_percent_encode(head) =~= encode_byte(bytes[0]));
        lemma_decode_one(bytes[0], spec_percent_encode(tail));
        lemma_percent_decode_round_trip(tail);
        assert(percent_decode(spec_percent_encode(bytes)) =~= bytes);
    }
}

fn hex(d: u8) -> (c: char)
    requires
        d < 16,
    ensures
        c == hex_digit(d),
{
    if d < 10 {
        (d + 48) as char
    } else {
        (d + 55) as char
    }
}

/// Percent-encodes a URL component (RFC 3986): unreserved ASCII is kept, every
/// other UTF-8 byte (Chinese included) becomes `%XX`.
pub fn percent_encode_component(input: &str) -> (r: String)
    ensures
        r@ == spec_percent_encode(vstd::utf8::encode_utf8(input@)),
{
    let bytes = input.as_bytes();
    let mut out = String::new();
    for i in 0..bytes.len()
        invariant
            bytes@ == vstd::utf8::encode_utf8(input@),
            out@ == spec_percent_encode(bytes@.take(i as int)),
    {
        let b = bytes[i];
        assert(bytes@.take(i + 1).drop_last() == bytes@.take(i as int));
        if (65 <= b && b <= 90) || (97 <= b && b <= 122) || (48 <= b && b <= 57) || b == 45 || b == 95
            || b == 46 || b == 126 {
            string_push(&mut out, b as char);
        } else {
            string_push(&mut out, '%');
            string_push(&mut out, hex(b / 16));
            string_push(&mut out, hex(b % 16));
            assert(out@ == spec_percent_encode(bytes@.take(i as int)) + seq!['%', hex_digit(b / 16), hex_digit(b % 16)]);
        }
    }
    assert(bytes@.take(bytes@.len() as int) == bytes@);
    out
}

} // verus!
