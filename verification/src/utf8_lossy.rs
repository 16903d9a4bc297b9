use vstd::prelude::*;
use vstd::utf8::*;
use crate::std_support::{char_from_scalar, push_char};

verus! {

/// Number of bytes of a well-formed UTF-8 sequence whose first byte is `lead`,
/// or 0 when no well-formed sequence starts with that byte.
pub open spec fn sequence_width(lead: u8) -> nat {
    if lead <= 0x7f {
        1
    } else if 0xc2 <= lead <= 0xdf {
        2
    } else if 0xe0 <= lead <= 0xef {
        3
    } else if 0xf0 <= lead <= 0xf4 {
        4
    } else {
        0
    }
}

/// The range allowed for the second byte of a well-formed sequence after `lead`.
pub open spec fn second_byte_ok(lead: u8, b: u8) -> bool {
    if lead == 0xe0 {
        0xa0 <= b <= 0xbf
    } else if lead == 0xed {
        0x80 <= b <= 0x9f
    } else if lead == 0xf0 {
        0x90 <= b <= 0xbf
    } else if lead == 0xf4 {
        0x80 <= b <= 0x8f
    } else {
        0x80 <= b <= 0xbf
    }
}

/// Length of the first chunk of a non-empty byte sequence: the whole first character
/// when it is well formed, otherwise the longest prefix that could still begin a
/// well-formed character (at least one byte).
pub open spec fn first_chunk_len(b: Seq<u8>) -> nat
    recommends
        b.len() > 0,
{
    let w = sequence_width(b[0]);
    if w <= 1 {
        1
    } else if b.len() < 2 || !second_byte_ok(b[0], b[1]) {
        1
    } else if w == 2 {
        2
    } else if b.len() < 3 || !is_continuation_byte(b[2]) {
        2
    } else if w == 3 {
        3
    } else if b.len() < 4 || !is_continuation_byte(b[3]) {
        3
    } else {
        4
    }
}

/// True when the first chunk of `b` is a well-formed character.
pub open spec fn first_chunk_valid(b: Seq<u8>) -> bool
    recommends
        b.len() > 0,
{
    sequence_width(b[0]) >= 1 && first_chunk_len(b) == sequence_width(b[0])
}

/// The replacement character U+FFFD.
pub open spec fn replacement() -> char {
    '\u{FFFD}'
}

/// Lossy UTF-8 decoding: every well-formed character is decoded, every maximal
/// ill-formed chunk becomes one U+FFFD.
pub open spec fn decode_lossy(b: Seq<u8>) -> Seq<char>
    decreases b.len(),
{
    if b.len() == 0 {
        seq![]
    } else {
        let n = first_chunk_len(b);
        let head = if first_chunk_valid(b) {
            decode_first_codepoint(b) as char
        } else {
            replacement()
        };
        seq![head] + decode_lossy(b.subrange(n as int, b.len() as int))
    }
}

proof fn lemma_width2(b0: u8, b1: u8)
    requires
        0xc0 <= b0 <= 0xdf,
        0x80 <= b1 <= 0xbf,
    ensures
        (codepoint_width_2(b0, b1) >= 0x80) <==> (b0 >= 0xc2),
        codepoint_width_2(b0, b1) < 0x800,
{
    assert(0xc0 <= b0 <= 0xdf && 0x80 <= b1 <= 0xbf ==> ((((b0 & 0x1f) as u32) << 6) | ((b1
        & 0x3f) as u32) >= 0x80 <==> b0 >= 0xc2)) by (bit_vector);
    assert(0xc0 <= b0 <= 0xdf && 0x80 <= b1 <= 0xbf ==> ((((b0 & 0x1f) as u32) << 6) | ((b1
        & 0x3f) as u32) < 0x800)) by (bit_vector);
}

proof fn lemma_width3(b0: u8, b1: u8, b2: u8)
    requires
        0xe0 <= b0 <= 0xef,
        0x80 <= b1 <= 0xbf,
        0x80 <= b2 <= 0xbf,
    ensures
        (codepoint_width_3(b0, b1, b2) >= 0x800 && not_surrogate(codepoint_width_3(b0, b1, b2)))
            <==> second_byte_ok(b0, b1),
        codepoint_width_3(b0, b1, b2) < 0x10000,
{
    assert(0xe0 <= b0 <= 0xef && 0x80 <= b1 <= 0xbf && 0x80 <= b2 <= 0xbf ==> ({
        let c = (((b0 & 0x0f) as u32) << 12) | (((b1 & 0x3f) as u32) << 6) | ((b2 & 0x3f) as u32);
        &&& (c >= 0x800 <==> (b0 != 0xe0 || b1 >= 0xa0))
        &&& (0xd800 <= c <= 0xdfff <==> (b0 == 0xed && b1 >= 0xa0))
        &&& c < 0x10000
    })) by (bit_vector);
}

proof fn lemma_width4(b0: u8, b1: u8, b2: u8, b3: u8)
    requires
        0xf0 <= b0 <= 0xf7,
        0x80 <= b1 <= 0xbf,
        0x80 <= b2 <= 0xbf,
        0x80 <= b3 <= 0xbf,
    ensures
        (0x10000 <= codepoint_width_4(b0, b1, b2, b3) <= 0x10ffff) <==> (b0 <= 0xf4
            && second_byte_ok(b0, b1)),
{
    assert(0xf0 <= b0 <= 0xf7 && 0x80 <= b1 <= 0xbf && 0x80 <= b2 <= 0xbf && 0x80 <= b3 <= 0xbf
        ==> ({
        let c = (((b0 & 0x07) as u32) << 18) | (((b1 & 0x3f) as u32) << 12) | (((b2 & 0x3f) as u32)
            << 6) | ((b3 & 0x3f) as u32);
        &&& (c >= 0x10000 <==> (b0 != 0xf0 || b1 >= 0x90))
        &&& (c <= 0x10ffff <==> (b0 < 0xf4 || (b0 == 0xf4 && b1 <= 0x8f)))
    })) by (bit_vector);
}

/// A well-formed first chunk is exactly a valid first scalar in the sense of
/// `vstd::utf8`, of the same length, and it decodes to a Unicode scalar value.
pub proof fn lemma_first_chunk_valid(b: Seq<u8>)
    requires
        b.len() > 0,
    ensures
        first_chunk_valid(b) <==> valid_first_scalar(b),
        first_chunk_valid(b) ==> first_chunk_len(b) == length_of_first_scalar(b),
        first_chunk_valid(b) ==> is_scalar(decode_first_codepoint(b)),
        1 <= first_chunk_len(b) <= b.len(),
{
    let b0 = b[0];
    if b0 <= 0x7f {
        assert((b0 & 0x7f) as u32 <= 0x7f) by (bit_vector);
    } else if 0xc0 <= b0 <= 0xdf {
        if b.len() >= 2 && is_continuation_byte(b[1]) {
            lemma_width2(b0, b[1]);
        }
    } else if 0xe0 <= b0 <= 0xef {
        if b.len() >= 3 && is_continuation_byte(b[1]) && is_continuation_byte(b[2]) {
            lemma_width3(b0, b[1], b[2]);
        }
    } else if 0xf0 <= b0 <= 0xf7 {
        if b.len() >= 4 && is_continuation_byte(b[1]) && is_continuation_byte(b[2])
            && is_continuation_byte(b[3]) {
            lemma_width4(b0, b[1], b[2], b[3]);
        }
    }
}

fn second_byte_in_range(lead: u8, b: u8) -> (r: bool)
    ensures
        r == second_byte_ok(lead, b),
{
    if lead == 0xe0 {
        0xa0 <= b && b <= 0xbf
    } else if lead == 0xed {
        0x80 <= b && b <= 0x9f
    } else if lead == 0xf0 {
        0x90 <= b && b <= 0xbf
    } else if lead == 0xf4 {
        0x80 <= b && b <= 0x8f
    } else {
        0x80 <= b && b <= 0xbf
    }
}

/// The character that the first chunk of a non-empty byte sequence decodes to.
pub open spec fn first_chunk_char(b: Seq<u8>) -> char {
    if first_chunk_valid(b) {
        decode_first_codepoint(b) as char
    } else {
        replacement()
    }
}

/// Decodes the chunk that starts at position `i` of `data`: its length and its character.
fn decode_chunk(data: &[u8], i: usize) -> (r: (usize, char))
    requires
        i < data.len(),
    ensures
        r.0 == first_chunk_len(data@.subrange(i as int, data.len() as int)),
        r.1 == first_chunk_char(data@.subrange(i as int, data.len() as int)),
{
    let ghost b = data@.subrange(i as int, data.len() as int);
    proof {
        lemma_first_chunk_valid(b);
    }
    let len = data.len();
    let b0 = data[i];
    if b0 <= 0x7f {
        let cp: u32 = (b0 & 0x7f) as u32;
        let c = char_from_scalar(cp);
        proof {
            char_u32_cast(c, cp);
        }
        return (1, c);
    }
    let w: usize = if 0xc2 <= b0 && b0 <= 0xdf {
        2
    } else if 0xe0 <= b0 && b0 <= 0xef {
        3
    } else if 0xf0 <= b0 && b0 <= 0xf4 {
        4
    } else {
        0
    };
    if w == 0 {
        return (1, '\u{FFFD}');
    }
    if i + 1 >= len || !second_byte_in_range(b0, data[i + 1]) {
        return (1, '\u{FFFD}');
    }
    let b1 = data[i + 1];
    if w == 2 {
        let cp: u32 = (((b0 & 0x1f) as u32) << 6) | ((b1 & 0x3f) as u32);
        let c = char_from_scalar(cp);
        proof {
            char_u32_cast(c, cp);
        }
        return (2, c);
    }
    if i + 2 >= len || !(0x80 <= data[i + 2] && data[i + 2] <= 0xbf) {
        return (2, '\u{FFFD}');
    }
    let b2 = data[i + 2];
    if w == 3 {
        let cp: u32 = (((b0 & 0x0f) as u32) << 12) | (((b1 & 0x3f) as u32) << 6) | ((b2 & 0x3f) as u32);
        let c = char_from_scalar(cp);
        proof {
            char_u32_cast(c, cp);
        }
        return (3, c);
    }
    if i + 3 >= len || !(0x80 <= data[i + 3] && data[i + 3] <= 0xbf) {
        return (3, '\u{FFFD}');
    }
    let b3 = data[i + 3];
    let cp: u32 = (((b0 & 0x07) as u32) << 18) | (((b1 & 0x3f) as u32) << 12) | (((b2 & 0x3f) as u32)
        << 6) | ((b3 & 0x3f) as u32);
    let c = char_from_scalar(cp);
    proof {
        char_u32_cast(c, cp);
    }
    (4, c)
}

/// Decodes bytes as UTF-8, replacing each maximal ill-formed chunk with U+FFFD.
pub fn decode_utf8_lossy(data: &[u8]) -> (r: String)
    ensures
        r@ == decode_lossy(data@),
{
    let mut out = String::new();
    let mut i: usize = 0;
    assert(data@.subrange(0, data@.len() as int) =~= data@);
    while i < data.len()
        invariant
            i <= data.len(),
            decode_lossy(data@) == out@ + decode_lossy(data@.subrange(i as int, data.len() as int)),
        decreases data.len() - i,
    {
        let ghost b = data@.subrange(i as int, data.len() as int);
        proof {
            lemma_first_chunk_valid(b);
        }
        let ghost out0 = out@;
        let (n, c) = decode_chunk(data, i);
        push_char(&mut out, c);
        i = i + n;
        assert(b.subrange(n as int, b.len() as int) =~= data@.subrange(i as int, data.len() as int));
        assert(out0 + (seq![c] + decode_lossy(data@.subrange(i as int, data.len() as int))) =~= out@
            + decode_lossy(data@.subrange(i as int, data.len() as int)));
    }
    let ghost e: Seq<u8> = data@.subrange(i as int, data.len() as int);
    assert(e.len() == 0);
    assert(out@ + decode_lossy(e) =~= out@);
    out
}

/// On valid UTF-8 the lossy decoding is the ordinary decoding.
pub proof fn lemma_decode_lossy_valid(b: Seq<u8>)
    requires
        valid_utf8(b),
    ensures
        decode_lossy(b) == decode_utf8(b),
    decreases b.len(),
{
    if b.len() > 0 {
        lemma_first_chunk_valid(b);
        let rest = b.subrange(first_chunk_len(b) as int, b.len() as int);
        assert(rest == pop_first_scalar(b));
        lemma_decode_lossy_valid(rest);
    }
}

/// Every character that the lossy decoding yields is encodable, and re-encoding the
/// result gives back the input exactly when the input is valid UTF-8.
pub proof fn lemma_decode_lossy_reencode(b: Seq<u8>)
    ensures
        encode_utf8(decode_lossy(b)) == b <==> valid_utf8(b),
{
    if valid_utf8(b) {
        lemma_decode_lossy_valid(b);
        decode_utf8_encode_utf8(b);
    } else {
        encode_utf8_valid_utf8(decode_lossy(b));
    }
}

} // verus!
