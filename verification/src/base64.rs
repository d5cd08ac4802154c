//! Base64 with the URL-safe alphabet, as tokens carry it.

use rustc_serialize::base64::{CharacterSet, Config, Newline, ToBase64};
use vstd::prelude::*;

verus! {

/// The character that stands for the six-bit value `v`: `A`-`Z`, `a`-`z`,
/// `0`-`9`, then `-` and `_`.
pub open spec fn alphabet_char(v: u8) -> char {
    if v < 26 {
        ((0x41 + v) as u8) as char
    } else if v < 52 {
        ((0x61 + (v - 26)) as u8) as char
    } else if v < 62 {
        ((0x30 + (v - 52)) as u8) as char
    } else if v == 62 {
        '-'
    } else {
        '_'
    }
}

/// The six-bit value that `c` stands for; 0 for a character outside the alphabet.
pub open spec fn alphabet_value(c: char) -> u8 {
    if 'A' <= c <= 'Z' {
        (c as u8 - 0x41) as u8
    } else if 'a' <= c <= 'z' {
        (c as u8 - 0x61 + 26) as u8
    } else if '0' <= c <= '9' {
        (c as u8 - 0x30 + 52) as u8
    } else if c == '-' {
        62
    } else if c == '_' {
        63
    } else {
        0
    }
}

/// Three bytes read as one number of 24 bits, the first byte on top.
pub open spec fn group_value(a: u8, b: u8, c: u8) -> int {
    a * 0x1_0000 + b * 0x100 + c
}

/// A number of 24 bits written as four characters, six bits each, the top
/// six bits first.
pub open spec fn encode_group(n: int) -> Seq<char> {
    seq![
        alphabet_char(((n / 0x4_0000) % 64) as u8),
        alphabet_char(((n / 0x1000) % 64) as u8),
        alphabet_char(((n / 0x40) % 64) as u8),
        alphabet_char((n % 64) as u8),
    ]
}

/// The end of an encoding whose last group is short of `missing` bytes.
pub open spec fn padding(missing: nat, pad: bool) -> Seq<char> {
    if pad {
        Seq::new(missing, |i: int| '=')
    } else {
        Seq::empty()
    }
}

/// The base64url text of `data`: each group of three bytes as four
/// characters. A last group of one or two bytes is filled up with zero bytes
/// and gives two or three characters; with `pad` they are followed by `=` up
/// to four.
pub open spec fn base64url(data: Seq<u8>, pad: bool) -> Seq<char>
    decreases data.len(),
{
    if data.len() >= 3 {
        encode_group(group_value(data[0], data[1], data[2])) + base64url(data.skip(3), pad)
    } else if data.len() == 2 {
        encode_group(group_value(data[0], data[1], 0)).take(3) + padding(1, pad)
    } else if data.len() == 1 {
        encode_group(group_value(data[0], 0, 0)).take(2) + padding(2, pad)
    } else {
        Seq::empty()
    }
}

/// Four characters read back as a number of 24 bits; `=` counts as zero.
pub open spec fn quad_value(p: char, q: char, r: char, s: char) -> int {
    alphabet_value(p) * 0x4_0000 + alphabet_value(q) * 0x1000 + alphabet_value(r) * 0x40
        + alphabet_value(s)
}

/// The three bytes of a number of 24 bits, the top byte first.
pub open spec fn group_bytes(n: int) -> Seq<u8> {
    seq![((n / 0x1_0000) % 0x100) as u8, ((n / 0x100) % 0x100) as u8, (n % 0x100) as u8]
}

/// The bytes that a padded base64url text stands for. Characters are read
/// four at a time; a group that ends in `=` is the last one and gives one
/// byte less for each `=`.
pub open spec fn base64url_decode(text: Seq<char>) -> Seq<u8>
    decreases text.len(),
{
    if text.len() < 4 {
        Seq::empty()
    } else {
        let bytes = group_bytes(quad_value(text[0], text[1], text[2], text[3]));
        if text[2] == '=' {
            bytes.take(1)
        } else if text[3] == '=' {
            bytes.take(2)
        } else {
            bytes + base64url_decode(text.skip(4))
        }
    }
}

/// Calls `to_base64` of `rustc_serialize` on `bytes`, with the URL-safe
/// character set, no line wrapping, and padding as `pad` says.
///
/// Trusted: the text returned is the RFC 4648 base64url encoding of `bytes`
/// that [`base64url`] writes out; without `pad` the trailing `=` are left off.
#[verifier::external_body]
pub(crate) fn to_base64_url(bytes: &[u8], pad: bool) -> (text: String)
    ensures
        text@ == base64url(bytes@, pad),
{
    bytes.to_base64(
        Config { char_set: CharacterSet::UrlSafe, newline: Newline::LF, pad, line_length: None },
    )
}

/// Encodes `data` as padded base64url text.
pub fn urlsafe(data: &[u8]) -> (text: String)
    ensures
        text@ == base64url(data@, true),
{
    to_base64_url(data, true)
}

/// A six-bit value is read back from its character, which is neither `=`
/// nor a colon.
pub proof fn lemma_alphabet_value(v: u8)
    requires
        v < 64,
    ensures
        alphabet_value(alphabet_char(v)) == v,
        alphabet_char(v) != '=',
        alphabet_char(v) != ':',
{
}

/// The four base-64 digits of a number of 24 bits make up the number.
proof fn lemma_digits_of_group(n: int)
    requires
        0 <= n < 0x100_0000,
    ensures
        ((n / 0x4_0000) % 64) * 0x4_0000 + ((n / 0x1000) % 64) * 0x1000 + ((n / 0x40) % 64) * 0x40 + n
            % 64 == n,
{
    let (q2, q1, q0) = (n / 0x4_0000, n / 0x1000, n / 0x40);
    assert(q2 < 64);
    assert(q1 == q2 * 64 + q1 % 64);
    assert(q0 == q1 * 64 + q0 % 64);
}

/// The three bytes of a group are those it was made of.
proof fn lemma_bytes_of_group(a: u8, b: u8, c: u8)
    ensures
        group_bytes(group_value(a, b, c)) == seq![a, b, c],
{
    let n = group_value(a, b, c);
    assert(n / 0x1_0000 == a);
    assert(n / 0x100 == a * 0x100 + b);
    assert(group_bytes(n) =~= seq![a, b, c]);
}

/// Decoding the four characters of a group gives back its three bytes; with
/// `=` in place of the characters that a short group leaves out it does so too.
pub proof fn lemma_decode_group(a: u8, b: u8, c: u8)
    ensures
        ({
            let t = encode_group(group_value(a, b, c));
            &&& group_bytes(quad_value(t[0], t[1], t[2], t[3])) == seq![a, b, c]
            &&& forall|i: int| 0 <= i < 4 ==> t[i] != '=' && t[i] != ':'
            &&& c == 0 ==> group_bytes(quad_value(t[0], t[1], t[2], '=')) == seq![a, b, c]
            &&& c == 0 && b == 0 ==> group_bytes(quad_value(t[0], t[1], '=', '=')) == seq![a, b, c]
        }),
{
    let n = group_value(a, b, c);
    lemma_digits_of_group(n);
    lemma_bytes_of_group(a, b, c);
    lemma_alphabet_value(((n / 0x4_0000) % 64) as u8);
    lemma_alphabet_value(((n / 0x1000) % 64) as u8);
    lemma_alphabet_value(((n / 0x40) % 64) as u8);
    lemma_alphabet_value((n % 64) as u8);
    let t = encode_group(n);
    assert(quad_value(t[0], t[1], t[2], t[3]) == n);
    if c == 0 {
        assert(n % 64 == 0);
        assert(quad_value(t[0], t[1], t[2], '=') == n);
        if b == 0 {
            assert((n / 0x40) % 64 == 0);
            assert(quad_value(t[0], t[1], '=', '=') == n);
        }
    }
}

/// Padded base64url text decodes to the bytes it was made from.
pub proof fn lemma_base64url_round_trip(data: Seq<u8>)
    ensures
        base64url_decode(base64url(data, true)) == data,
    decreases data.len(),
{
    if data.len() >= 3 {
        let rest = data.skip(3);
        lemma_decode_group(data[0], data[1], data[2]);
        lemma_base64url_round_trip(rest);
        assert(base64url(data, true).skip(4) =~= base64url(rest, true));
    } else if data.len() == 2 {
        lemma_decode_group(data[0], data[1], 0);
    } else if data.len() == 1 {
        lemma_decode_group(data[0], 0, 0);
    }
}

/// No character of base64url text is a colon.
pub proof fn lemma_base64url_no_colon(data: Seq<u8>, pad: bool)
    ensures
        !base64url(data, pad).contains(':'),
    decreases data.len(),
{
    if data.len() >= 3 {
        lemma_decode_group(data[0], data[1], data[2]);
        lemma_base64url_no_colon(data.skip(3), pad);
    } else if data.len() == 2 {
        lemma_decode_group(data[0], data[1], 0);
    } else if data.len() == 1 {
        lemma_decode_group(data[0], 0, 0);
    }
}

} // verus!
