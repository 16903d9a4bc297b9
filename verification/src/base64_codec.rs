use vstd::prelude::*;

verus! {

/// The character of the standard Base64 alphabet for a 6-bit value.
pub open spec fn b64_char(v: nat) -> char
    recommends
        v < 64,
{
    if v < 26 {
        (v + 65) as char
    } else if v < 52 {
        (v + 71) as char
    } else if v < 62 {
        (v - 4) as char
    } else if v == 62 {
        '+'
    } else {
        '/'
    }
}

/// Standard Base64 (RFC 4648, section 4) with `=` padding.
pub open spec fn spec_base64_encode(b: Seq<u8>) -> Seq<char>
    decreases b.len(),
{
    if b.len() == 0 {
        seq![]
    } else if b.len() == 1 {
        seq![b64_char(b[0] as nat / 4), b64_char((b[0] as nat % 4) * 16), '=', '=']
    } else if b.len() == 2 {
        seq![
            b64_char(b[0] as nat / 4),
            b64_char((b[0] as nat % 4) * 16 + b[1] as nat / 16),
            b64_char((b[1] as nat % 16) * 4),
            '=',
        ]
    } else {
        seq![
            b64_char(b[0] as nat / 4),
            b64_char((b[0] as nat % 4) * 16 + b[1] as nat / 16),
            b64_char((b[1] as nat % 16) * 4 + b[2] as nat / 64),
            b64_char(b[2] as nat % 64),
        ] + spec_base64_encode(b.skip(3))
    }
}

/// The bytes whose Base64 encoding is `s`, if there are any.
pub open spec fn spec_base64_decode(s: Seq<char>) -> Option<Seq<u8>> {
    if exists|b: Seq<u8>| spec_base64_encode(b) == s {
        Some(choose|b: Seq<u8>| spec_base64_encode(b) == s)
    } else {
        None
    }
}

proof fn lemma_b64_char(v: nat, w: nat)
    requires
        v < 64,
        w < 64,
    ensures
        b64_char(v) != '=',
        b64_char(v) == b64_char(w) ==> v == w,
{
    if v < 26 {
        assert(((v + 65) as char) as int == v + 65);
    } else if v < 52 {
        assert(((v + 71) as char) as int == v + 71);
    } else if v < 62 {
        assert(((v - 4) as char) as int == v - 4);
    }
    if w < 26 {
        assert(((w + 65) as char) as int == w + 65);
    } else if w < 52 {
        assert(((w + 71) as char) as int == w + 71);
    } else if w < 62 {
        assert(((w - 4) as char) as int == w - 4);
    }
}

/// Two byte sequences with the same Base64 encoding are equal.
pub proof fn lemma_base64_encode_injective(a: Seq<u8>, b: Seq<u8>)
    requires
        spec_base64_encode(a) == spec_base64_encode(b),
    ensures
        a == b,
    decreases a.len(),
{
    let ea = spec_base64_encode(a);
    let eb = spec_base64_encode(b);
    if a.len() == 0 || b.len() == 0 {
        if a.len() != 0 || b.len() != 0 {
            assert(ea.len() != eb.len());
        }
        assert(a =~= b);
    } else {
        assert(ea[0] == eb[0]);
        assert(ea[1] == eb[1]);
        assert(ea[2] == eb[2]);
        assert(ea[3] == eb[3]);
        let a0 = a[0] as nat;
        let b0 = b[0] as nat;
        lemma_b64_char(a0 / 4, b0 / 4);
        let a1 = if a.len() > 1 { a[1] as nat } else { 0 };
        let b1 = if b.len() > 1 { b[1] as nat } else { 0 };
        let a2 = if a.len() > 2 { a[2] as nat } else { 0 };
        let b2 = if b.len() > 2 { b[2] as nat } else { 0 };
        lemma_b64_char((a0 % 4) * 16 + a1 / 16, (b0 % 4) * 16 + b1 / 16);
        lemma_b64_char((a1 % 16) * 4 + a2 / 64, (b1 % 16) * 4 + b2 / 64);
        lemma_b64_char((a1 % 16) * 4, (b1 % 16) * 4);
        lemma_b64_char((a1 % 16) * 4, (b1 % 16) * 4 + b2 / 64);
        lemma_b64_char((a1 % 16) * 4 + a2 / 64, (b1 % 16) * 4);
        lemma_b64_char(a2 % 64, b2 % 64);
        lemma_b64_char((a0 % 4) * 16, (b0 % 4) * 16);
        lemma_b64_char((a0 % 4) * 16, (b0 % 4) * 16 + b1 / 16);
        lemma_b64_char((a0 % 4) * 16 + a1 / 16, (b0 % 4) * 16);
        assert(a.len() >= 3 <==> b.len() >= 3);
        assert(a.len() == 2 <==> b.len() == 2);
        assert(a.len() == b.len() || (a.len() >= 3 && b.len() >= 3));
        assert(a0 == b0);
        if a.len() >= 2 {
            assert(a1 == b1);
        }
        if a.len() >= 3 {
            assert(a2 == b2);
            assert(ea.skip(4) =~= spec_base64_encode(a.skip(3)));
            assert(eb.skip(4) =~= spec_base64_encode(b.skip(3)));
            lemma_base64_encode_injective(a.skip(3), b.skip(3));
            assert(a =~= seq![a[0], a[1], a[2]] + a.skip(3));
            assert(b =~= seq![b[0], b[1], b[2]] + b.skip(3));
        } else {
            assert(a =~= b);
        }
    }
}

/// Decoding the Base64 encoding of any bytes gives back those bytes.
pub proof fn law_base64_roundtrip(b: Seq<u8>)
    ensures
        spec_base64_decode(spec_base64_encode(b)) == Some(b),
{
    let s = spec_base64_encode(b);
    assert(exists|x: Seq<u8>| spec_base64_encode(x) == s);
    let c = choose|x: Seq<u8>| spec_base64_encode(x) == s;
    lemma_base64_encode_injective(c, b);
}

/// Why Base64 text could not be decoded.
#[derive(Debug, PartialEq, Eq)]
pub enum Base64DecodeError {
    /// A byte that is not in the alphabet, at the given offset.
    InvalidByte(usize, u8),
    /// A length that no encoding has.
    InvalidLength,
    /// A last symbol whose unused bits are not zero, at the given offset.
    InvalidLastSymbol(usize, u8),
    /// Missing or misplaced padding.
    InvalidPadding,
}

/// `base64::encode` (standard alphabet, with padding): the contract states the
/// encoding of RFC 4648, which is what the crate's `STANDARD` engine produces.
#[verifier::external_body]
fn base64_encode(data: &[u8]) -> (r: String)
    ensures
        r@ == spec_base64_encode(data@),
{
    #[allow(deprecated)]
    base64::encode(data)
}

/// The error, as the library's error value, that `base64::decode` reports for a text
/// that is not a canonical encoding. It depends on the text alone.
pub uninterp spec fn base64_decode_error(text: Seq<char>) -> Base64DecodeError;

/// `base64::decode` (standard alphabet, canonical padding required, non-zero
/// trailing bits rejected): it succeeds exactly on the canonical encodings and
/// returns the bytes they encode. Its `DecodeError` is turned into the library's
/// error value, variant for variant; which error that is, is named, not described.
#[verifier::external_body]
fn base64_decode(text: &str) -> (r: Result<Vec<u8>, Base64DecodeError>)
    ensures
        r matches Ok(v) ==> spec_base64_encode(v@) == text@,
        r is Err ==> forall|b: Seq<u8>| #[trigger] spec_base64_encode(b) != text@,
        r matches Err(e) ==> e == base64_decode_error(text@),
{
    #[allow(deprecated)]
    match base64::decode(text) {
        Ok(v) => Ok(v),
        Err(base64::DecodeError::InvalidByte(i, b)) => Err(Base64DecodeError::InvalidByte(i, b)),
        Err(base64::DecodeError::InvalidLength) => Err(Base64DecodeError::InvalidLength),
        Err(base64::DecodeError::InvalidLastSymbol(i, b)) => Err(
            Base64DecodeError::InvalidLastSymbol(i, b),
        ),
        Err(base64::DecodeError::InvalidPadding) => Err(Base64DecodeError::InvalidPadding),
    }
}

/// Base64 text of a serialized Protocol Buffers message.
pub fn protobuf_to_base64(serialized: &[u8]) -> (r: String)
    ensures
        r@ == spec_base64_encode(serialized@),
{
    base64_encode(serialized)
}

/// The serialized Protocol Buffers bytes that Base64 text encodes; an error when the
/// text is not a canonical standard Base64 encoding.
pub fn base64_to_protobuf_bytes(base64str: &str) -> (r: Result<Vec<u8>, Base64DecodeError>)
    ensures
        r matches Ok(v) ==> spec_base64_decode(base64str@) == Some(v@),
        r is Err <==> spec_base64_decode(base64str@) is None,
        r matches Err(e) ==> e == base64_decode_error(base64str@),
{
    match base64_decode(base64str) {
        Ok(v) => {
            proof {
                let c = choose|x: Seq<u8>| spec_base64_encode(x) == base64str@;
                lemma_base64_encode_injective(c, v@);
            }
            Ok(v)
        },
        Err(e) => Err(e),
    }
}

} // verus!
