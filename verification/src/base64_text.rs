//! Base64 text of bytes (RFC 4648, standard alphabet), through the `base64`
//! crate's `STANDARD` and `STANDARD_NO_PAD` engines.
use vstd::prelude::*;
use base64::Engine;

verus! {

/// The base64 character of a 6-bit value.
pub open spec fn b64_char(v: int) -> char {
    if v < 26 {
        (65 + v) as char
    } else if v < 52 {
        (97 + v - 26) as char
    } else if v < 62 {
        (48 + v - 52) as char
    } else if v == 62 {
        '+'
    } else {
        '/'
    }
}

/// The four characters of three bytes.
pub open spec fn b64_group(b0: int, b1: int, b2: int) -> Seq<char> {
    seq![
        b64_char(b0 / 4),
        b64_char((b0 % 4) * 16 + b1 / 16),
        b64_char((b1 % 16) * 4 + b2 / 64),
        b64_char(b2 % 64),
    ]
}

/// Base64 text of bytes: four characters per three bytes; a last group of
/// one or two bytes gives two or three characters, followed by `=` up to
/// four when `pad`.
pub open spec fn b64_encoded(data: Seq<u8>, pad: bool) -> Seq<char>
    decreases data.len(),
{
    if data.len() >= 3 {
        b64_group(data[0] as int, data[1] as int, data[2] as int) + b64_encoded(data.subrange(3, data.len() as int), pad)
    } else if data.len() == 2 {
        seq![
            b64_char(data[0] as int / 4),
            b64_char((data[0] as int % 4) * 16 + data[1] as int / 16),
            b64_char((data[1] as int % 16) * 4),
        ] + if pad { seq!['='] } else { Seq::empty() }
    } else if data.len() == 1 {
        seq![b64_char(data[0] as int / 4), b64_char((data[0] as int % 4) * 16)] + if pad { seq!['=', '='] } else { Seq::empty() }
    } else {
        Seq::empty()
    }
}

/// `base64::engine::general_purpose::STANDARD_NO_PAD.encode`: claimed to
/// give the base64 text of the bytes, without padding.
#[verifier::external_body]
pub(crate) fn encode_no_pad(data: &[u8]) -> (t: String)
    ensures
        t@ == b64_encoded(data@, false),
{
    base64::engine::general_purpose::STANDARD_NO_PAD.encode(data)
}

/// `base64::engine::general_purpose::STANDARD.encode`: claimed to give the
/// base64 text of the bytes, padded with `=`.
#[verifier::external_body]
pub(crate) fn encode_padded(data: &[u8]) -> (t: String)
    ensures
        t@ == b64_encoded(data@, true),
{
    base64::engine::general_purpose::STANDARD.encode(data)
}

/// The bytes whose base64 text (padded when `pad`) is `text`, or `None`
/// where no bytes have that text: the engines decode exactly the canonical
/// texts, with no stray trailing bits and padding only where required.
pub open spec fn b64_decoded(text: Seq<char>, pad: bool) -> Option<Seq<u8>> {
    if exists|b: Seq<u8>| b64_encoded(b, pad) == text {
        Some(choose|b: Seq<u8>| b64_encoded(b, pad) == text)
    } else {
        None
    }
}

/// What `STANDARD_NO_PAD.decode` returns for a text.
pub open spec fn b64_no_pad_decoded(text: Seq<char>) -> Option<Seq<u8>> {
    b64_decoded(text, false)
}

/// What `STANDARD.decode` returns for a text.
pub open spec fn b64_padded_decoded(text: Seq<char>) -> Option<Seq<u8>> {
    b64_decoded(text, true)
}

/// Distinct 6-bit values have distinct characters.
proof fn char_injective(v: int, w: int)
    requires
        0 <= v < 64,
        0 <= w < 64,
        b64_char(v) == b64_char(w),
    ensures
        v == w,
{
}

/// No 6-bit value is written as the padding character.
proof fn char_not_pad(v: int)
    requires
        0 <= v < 64,
    ensures
        b64_char(v) != '=',
{
}

/// Three bytes are read back from their four characters.
proof fn group_injective(a0: u8, a1: u8, a2: u8, b0: u8, b1: u8, b2: u8)
    requires
        b64_group(a0 as int, a1 as int, a2 as int) == b64_group(b0 as int, b1 as int, b2 as int),
    ensures
        a0 == b0,
        a1 == b1,
        a2 == b2,
{
    let ga = b64_group(a0 as int, a1 as int, a2 as int);
    let gb = b64_group(b0 as int, b1 as int, b2 as int);
    assert(ga[0] == gb[0]);
    assert(ga[1] == gb[1]);
    assert(ga[2] == gb[2]);
    assert(ga[3] == gb[3]);
    char_injective(a0 as int / 4, b0 as int / 4);
    char_injective((a0 as int % 4) * 16 + a1 as int / 16, (b0 as int % 4) * 16 + b1 as int / 16);
    char_injective((a1 as int % 16) * 4 + a2 as int / 64, (b1 as int % 16) * 4 + b2 as int / 64);
    char_injective(a2 as int % 64, b2 as int % 64);
}

/// The text of three bytes or more starts with the group of the first three.
proof fn long_text_starts_with_group(d: Seq<u8>, pad: bool)
    requires
        d.len() >= 3,
    ensures
        b64_encoded(d, pad).len() >= 4,
        b64_encoded(d, pad).subrange(0, 4) == b64_group(d[0] as int, d[1] as int, d[2] as int),
        b64_encoded(d, pad).subrange(4, b64_encoded(d, pad).len() as int) == b64_encoded(
            d.subrange(3, d.len() as int),
            pad,
        ),
        forall|i: int| 0 <= i < 4 ==> b64_encoded(d, pad)[i] != '=',
{
    let g = b64_group(d[0] as int, d[1] as int, d[2] as int);
    let r = b64_encoded(d.subrange(3, d.len() as int), pad);
    assert(b64_encoded(d, pad) == g + r);
    assert((g + r).subrange(0, 4) =~= g);
    assert((g + r).subrange(4, (g + r).len() as int) =~= r);
    char_not_pad(d[0] as int / 4);
    char_not_pad((d[0] as int % 4) * 16 + d[1] as int / 16);
    char_not_pad((d[1] as int % 16) * 4 + d[2] as int / 64);
    char_not_pad(d[2] as int % 64);
}

/// Different bytes have different base64 texts.
pub proof fn b64_encoded_injective(a: Seq<u8>, b: Seq<u8>, pad: bool)
    requires
        b64_encoded(a, pad) == b64_encoded(b, pad),
    ensures
        a == b,
    decreases a.len(),
{
    let t = b64_encoded(a, pad);
    if a.len() >= 3 && b.len() >= 3 {
        long_text_starts_with_group(a, pad);
        long_text_starts_with_group(b, pad);
        group_injective(a[0], a[1], a[2], b[0], b[1], b[2]);
        b64_encoded_injective(a.subrange(3, a.len() as int), b.subrange(3, b.len() as int), pad);
        assert(a =~= seq![a[0], a[1], a[2]] + a.subrange(3, a.len() as int));
        assert(b =~= seq![b[0], b[1], b[2]] + b.subrange(3, b.len() as int));
    } else if a.len() >= 3 {
        long_text_starts_with_group(a, pad);
        short_text_shape(b, pad);
    } else if b.len() >= 3 {
        long_text_starts_with_group(b, pad);
        short_text_shape(a, pad);
    } else {
        short_text_shape(a, pad);
        short_text_shape(b, pad);
        if a.len() == 2 && b.len() == 2 {
            char_injective(a[0] as int / 4, b[0] as int / 4);
            char_injective((a[0] as int % 4) * 16 + a[1] as int / 16, (b[0] as int % 4) * 16 + b[1] as int / 16);
            char_injective((a[1] as int % 16) * 4, (b[1] as int % 16) * 4);
            assert(a =~= b);
        } else if a.len() == 1 && b.len() == 1 {
            char_injective(a[0] as int / 4, b[0] as int / 4);
            char_injective((a[0] as int % 4) * 16, (b[0] as int % 4) * 16);
            assert(a =~= b);
        } else if a.len() == 0 && b.len() == 0 {
            assert(a =~= b);
        }
    }
}

/// The shape of the text of fewer than three bytes.
proof fn short_text_shape(d: Seq<u8>, pad: bool)
    requires
        d.len() < 3,
    ensures
        d.len() == 0 ==> b64_encoded(d, pad).len() == 0,
        d.len() == 1 ==> b64_encoded(d, pad).len() == (if pad { 4int } else { 2int }),
        d.len() == 2 ==> b64_encoded(d, pad).len() == (if pad { 4int } else { 3int }),
        d.len() == 1 ==> b64_encoded(d, pad)[0] == b64_char(d[0] as int / 4) && b64_encoded(d, pad)[1] == b64_char(
            (d[0] as int % 4) * 16,
        ),
        d.len() == 2 ==> b64_encoded(d, pad)[0] == b64_char(d[0] as int / 4) && b64_encoded(d, pad)[1] == b64_char(
            (d[0] as int % 4) * 16 + d[1] as int / 16,
        ) && b64_encoded(d, pad)[2] == b64_char((d[1] as int % 16) * 4),
        d.len() == 1 && pad ==> b64_encoded(d, pad)[2] == '=' && b64_encoded(d, pad)[3] == '=',
        d.len() == 2 && pad ==> b64_encoded(d, pad)[3] == '=',
        d.len() == 2 ==> b64_encoded(d, pad)[2] != '=',
{
    if d.len() == 2 {
        char_not_pad((d[1] as int % 16) * 4);
    }
}

/// A base64 text reads back as the bytes it was made from.
pub proof fn b64_reads_back(b: Seq<u8>, pad: bool)
    ensures
        b64_decoded(b64_encoded(b, pad), pad) == Some(b),
{
    let t = b64_encoded(b, pad);
    assert(exists|c: Seq<u8>| b64_encoded(c, pad) == t);
    let c = choose|c: Seq<u8>| b64_encoded(c, pad) == t;
    b64_encoded_injective(c, b, pad);
}

/// `base64::engine::general_purpose::STANDARD_NO_PAD.decode`: claimed to
/// succeed exactly on the unpadded canonical base64 texts, giving the bytes
/// they were made from (its config requires no padding and no trailing bits).
#[verifier::external_body]
pub(crate) fn decode_no_pad(text: &str) -> (r: Option<Vec<u8>>)
    ensures
        match r {
            Some(v) => b64_no_pad_decoded(text@) == Some(v@),
            None => b64_no_pad_decoded(text@) is None,
        },
{
    base64::engine::general_purpose::STANDARD_NO_PAD.decode(text).ok()
}

/// `base64::engine::general_purpose::STANDARD.decode`: claimed to succeed
/// exactly on the padded canonical base64 texts, giving the bytes they were
/// made from (its config requires canonical padding and no trailing bits).
#[verifier::external_body]
pub(crate) fn decode_padded(text: &str) -> (r: Option<Vec<u8>>)
    ensures
        match r {
            Some(v) => b64_padded_decoded(text@) == Some(v@),
            None => b64_padded_decoded(text@) is None,
        },
{
    base64::engine::general_purpose::STANDARD.decode(text).ok()
}

} // verus!
