//! A mathematical model of standard base64 (RFC 4648, with `=` padding),
//! together with the one trusted call into the `base64` crate.
use vstd::prelude::*;

verus! {

/// The character of the standard base64 alphabet for a sextet value:
/// `A`..`Z` for 0..25, `a`..`z` for 26..51, `0`..`9` for 52..61,
/// then `+` and `/`.
pub open spec fn b64_char(v: int) -> char {
    if 0 <= v < 26 {
        ((65 + v) as u32) as char
    } else if 26 <= v < 52 {
        ((97 + (v - 26)) as u32) as char
    } else if 52 <= v < 62 {
        ((48 + (v - 52)) as u32) as char
    } else if v == 62 {
        '+'
    } else {
        '/'
    }
}

/// The sextet value of an alphabet character; the inverse of `b64_char`.
pub open spec fn b64_val(c: char) -> int {
    let u = c as u32;
    if 65 <= u <= 90 {
        u - 65
    } else if 97 <= u <= 122 {
        (u - 97) + 26
    } else if 48 <= u <= 57 {
        (u - 48) + 52
    } else if u == 43 {
        62
    } else {
        63
    }
}

/// `b64_char` maps every sextet into the alphabet, never to the padding
/// character, and `b64_val` undoes it.
pub proof fn lemma_b64_char_val(v: int)
    requires
        0 <= v < 64,
    ensures
        b64_val(b64_char(v)) == v,
        b64_char(v) != '=',
{
}

/// The four characters that encode a full group of three bytes.
pub open spec fn encode3(b0: u8, b1: u8, b2: u8) -> Seq<char> {
    seq![
        b64_char(b0 as int / 4),
        b64_char((b0 as int % 4) * 16 + b1 as int / 16),
        b64_char((b1 as int % 16) * 4 + b2 as int / 64),
        b64_char(b2 as int % 64),
    ]
}

/// The four characters that encode a trailing group of two bytes.
pub open spec fn encode2(b0: u8, b1: u8) -> Seq<char> {
    seq![
        b64_char(b0 as int / 4),
        b64_char((b0 as int % 4) * 16 + b1 as int / 16),
        b64_char((b1 as int % 16) * 4),
        '=',
    ]
}

/// The four characters that encode a trailing group of one byte.
pub open spec fn encode1(b0: u8) -> Seq<char> {
    seq![b64_char(b0 as int / 4), b64_char((b0 as int % 4) * 16), '=', '=']
}

/// Standard base64 encoding of a byte sequence: three bytes at a time,
/// the trailing group padded with `=` up to four characters.
pub open spec fn base64_encode(bytes: Seq<u8>) -> Seq<char>
    decreases bytes.len(),
{
    if bytes.len() == 0 {
        Seq::empty()
    } else if bytes.len() == 1 {
        encode1(bytes[0])
    } else if bytes.len() == 2 {
        encode2(bytes[0], bytes[1])
    } else {
        encode3(bytes[0], bytes[1], bytes[2]) + base64_encode(bytes.skip(3))
    }
}

/// The bytes held by one four-character group; `=` padding marks a
/// group of one or two bytes.
pub open spec fn decode4(c0: char, c1: char, c2: char, c3: char) -> Seq<u8> {
    let s0 = b64_val(c0);
    let s1 = b64_val(c1);
    let s2 = b64_val(c2);
    let s3 = b64_val(c3);
    if c2 == '=' {
        seq![(s0 * 4 + s1 / 16) as u8]
    } else if c3 == '=' {
        seq![(s0 * 4 + s1 / 16) as u8, ((s1 % 16) * 16 + s2 / 4) as u8]
    } else {
        seq![
            (s0 * 4 + s1 / 16) as u8,
            ((s1 % 16) * 16 + s2 / 4) as u8,
            ((s2 % 4) * 64 + s3) as u8,
        ]
    }
}

/// Standard base64 decoding: four characters at a time; anything shorter
/// than a full group is ignored.
pub open spec fn base64_decode(chars: Seq<char>) -> Seq<u8>
    decreases chars.len(),
{
    if chars.len() < 4 {
        Seq::empty()
    } else {
        decode4(chars[0], chars[1], chars[2], chars[3]) + base64_decode(chars.skip(4))
    }
}

/// Decoding undoes encoding: every byte sequence comes back unchanged.
pub proof fn lemma_base64_round_trip(bytes: Seq<u8>)
    ensures
        base64_decode(base64_encode(bytes)) == bytes,
    decreases bytes.len(),
{
    reveal_with_fuel(base64_decode, 2);
    if bytes.len() == 0 {
        assert(base64_decode(base64_encode(bytes)) =~= bytes);
    } else if bytes.len() == 1 {
        let b0 = bytes[0] as int;
        lemma_b64_char_val(b0 / 4);
        lemma_b64_char_val((b0 % 4) * 16);
        assert(base64_decode(base64_encode(bytes)) =~= bytes);
    } else if bytes.len() == 2 {
        let b0 = bytes[0] as int;
        let b1 = bytes[1] as int;
        lemma_b64_char_val(b0 / 4);
        lemma_b64_char_val((b0 % 4) * 16 + b1 / 16);
        lemma_b64_char_val((b1 % 16) * 4);
        assert(base64_decode(base64_encode(bytes)) =~= bytes);
    } else {
        let b0 = bytes[0] as int;
        let b1 = bytes[1] as int;
        let b2 = bytes[2] as int;
        lemma_b64_char_val(b0 / 4);
        lemma_b64_char_val((b0 % 4) * 16 + b1 / 16);
        lemma_b64_char_val((b1 % 16) * 4 + b2 / 64);
        lemma_b64_char_val(b2 % 64);
        lemma_base64_round_trip(bytes.skip(3));
        let g = encode3(bytes[0], bytes[1], bytes[2]);
        let rest = base64_encode(bytes.skip(3));
        assert((g + rest).skip(4) =~= rest);
        assert(base64_decode(base64_encode(bytes)) =~= bytes);
    }
}

/// Whether a character belongs to the standard base64 alphabet.
pub open spec fn is_b64_char(c: char) -> bool {
    exists|v: int| 0 <= v < 64 && c == b64_char(v)
}

/// An encoded sequence is as long as the byte count asks: four characters
/// for every started group of three bytes.
pub proof fn lemma_base64_encode_len(bytes: Seq<u8>)
    ensures
        base64_encode(bytes).len() == 4 * ((bytes.len() + 2) / 3),
    decreases bytes.len(),
{
    if bytes.len() >= 3 {
        lemma_base64_encode_len(bytes.skip(3));
    }
}

/// Every encoded sequence is valid base64: a whole number of groups, all
/// characters from the alphabet but for `=` padding, which stands only in
/// the last two positions.
pub proof fn lemma_base64_encode_valid(bytes: Seq<u8>)
    ensures
        base64_encode(bytes).len() % 4 == 0,
        forall|i: int|
            0 <= i < base64_encode(bytes).len() ==> is_b64_char(
                #[trigger] base64_encode(bytes)[i],
            ) || (base64_encode(bytes).len() - 2 <= i && base64_encode(bytes)[i] == '='),
    decreases bytes.len(),
{
    if bytes.len() == 0 {
    } else if bytes.len() == 1 {
        let b0 = bytes[0] as int;
        lemma_b64_char_val(b0 / 4);
        lemma_b64_char_val((b0 % 4) * 16);
    } else if bytes.len() == 2 {
        let b0 = bytes[0] as int;
        let b1 = bytes[1] as int;
        lemma_b64_char_val(b0 / 4);
        lemma_b64_char_val((b0 % 4) * 16 + b1 / 16);
        lemma_b64_char_val((b1 % 16) * 4);
    } else {
        let b0 = bytes[0] as int;
        let b1 = bytes[1] as int;
        let b2 = bytes[2] as int;
        lemma_b64_char_val(b0 / 4);
        lemma_b64_char_val((b0 % 4) * 16 + b1 / 16);
        lemma_b64_char_val((b1 % 16) * 4 + b2 / 64);
        lemma_b64_char_val(b2 % 64);
        lemma_base64_encode_valid(bytes.skip(3));
        lemma_base64_encode_len(bytes.skip(3));
        let g = encode3(bytes[0], bytes[1], bytes[2]);
        let rest = base64_encode(bytes.skip(3));
        assert forall|i: int| 0 <= i < (g + rest).len() implies is_b64_char(
            #[trigger] (g + rest)[i],
        ) || ((g + rest).len() - 2 <= i && (g + rest)[i] == '=') by {
            if i >= 4 {
                assert((g + rest)[i] == rest[i - 4]);
            }
        }
    }
}

/// Relies on the `base64` crate's `STANDARD` engine: `Engine::encode`
/// returns the RFC 4648 standard, `=`-padded base64 encoding of the input
/// bytes. It panics when the encoded length overflows `usize`, so that
/// case is excluded here.
#[verifier::external_body]
pub(crate) fn encode_bytes(bytes: &Vec<u8>) -> (r: String)
    requires
        bytes@.len() / 3 * 4 + 4 <= usize::MAX,
    ensures
        r@ == base64_encode(bytes@),
{
    base64::Engine::encode(&base64::engine::general_purpose::STANDARD, bytes.as_slice())
}

} // verus!
