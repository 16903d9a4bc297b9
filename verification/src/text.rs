use vstd::prelude::*;
use vstd::utf8::*;
use crate::std_support::push_char;
use crate::utf8_lossy::{decode_lossy, decode_utf8_lossy, lemma_decode_lossy_reencode, lemma_decode_lossy_valid};

verus! {

/// The lowercase hexadecimal digit for a value below 16.
pub open spec fn hex_digit(d: nat) -> char
    recommends
        d < 16,
{
    if d < 10 {
        (d + 48) as char
    } else {
        (d + 87) as char
    }
}

/// Lowercase hexadecimal notation of `n`, without leading zeros.
pub open spec fn hex_of(n: nat) -> Seq<char>
    decreases n,
{
    if n < 16 {
        seq![hex_digit(n)]
    } else {
        hex_of(n / 16).push(hex_digit(n % 16))
    }
}

/// `s` left-padded with '0' up to `width` characters.
pub open spec fn zero_pad(s: Seq<char>, width: nat) -> Seq<char> {
    if s.len() >= width {
        s
    } else {
        Seq::new((width - s.len()) as nat, |i: int| '0') + s
    }
}

/// The escape `\uXXXX` of a character: its scalar value in lowercase hex, at least four digits.
pub open spec fn spec_escape(c: char) -> Seq<char> {
    seq!['\\', 'u'] + zero_pad(hex_of(c as nat), 4)
}

/// Sixteen to the power `k`.
pub open spec fn pow16(k: nat) -> nat
    decreases k,
{
    if k == 0 {
        1
    } else {
        16 * pow16((k - 1) as nat)
    }
}

proof fn lemma_hex_len(n: nat, k: nat)
    requires
        1 <= k,
        n < pow16(k),
    ensures
        1 <= hex_of(n).len() <= k,
    decreases k,
{
    if n >= 16 {
        let p = pow16((k - 1) as nat);
        assert(k >= 2) by {
            if k == 1 {
                assert(pow16(1) == 16) by {
                    reveal_with_fuel(pow16, 2);
                }
            }
        }
        assert(n / 16 < p) by (nonlinear_arith)
            requires
                n < 16 * p,
        ;
        lemma_hex_len(n / 16, (k - 1) as nat);
    }
}

fn hex_char(d: u32) -> (c: char)
    requires
        d < 16,
    ensures
        c == hex_digit(d as nat),
{
    let b: u8 = d as u8;
    if b < 10 {
        (b + 48) as char
    } else {
        (b + 87) as char
    }
}

/// Escapes a character as `\u` followed by its code in lowercase hexadecimal,
/// zero-padded to four digits.
pub fn escape_control_character(c: char) -> (r: String)
    ensures
        r@ == spec_escape(c),
{
    let v: u32 = c as u32;
    proof {
        reveal_with_fuel(pow16, 9);
        lemma_hex_len(v as nat, 8);
    }
    let mut n: u32 = v;
    // digits of v below those of n, least significant first
    let mut low: Vec<char> = Vec::new();
    while n >= 16
        invariant
            hex_of(v as nat) == hex_of(n as nat) + low@.reverse(),
            hex_of(v as nat).len() <= 8,
        decreases n,
    {
        let d = hex_char(n % 16);
        low.push(d);
        proof {
            assert(hex_of(n as nat) == hex_of((n / 16) as nat).push(hex_digit((n % 16) as nat)));
        }
        n = n / 16;
        assert(hex_of(v as nat) == hex_of(n as nat) + low@.reverse()) by {
            assert(low@.reverse() =~= seq![d] + low@.drop_last().reverse());
        }
    }
    let top = hex_char(n);
    let ghost digits = seq![top] + low@.reverse();
    assert(digits =~= hex_of(v as nat));
    let mut r = String::new();
    push_char(&mut r, '\\');
    push_char(&mut r, 'u');
    let len: usize = low.len() + 1;
    let pad_n: usize = if len < 4 {
        4 - len
    } else {
        0
    };
    let mut k: usize = 0;
    while k < pad_n
        invariant
            k <= pad_n,
            r@ == seq!['\\', 'u'] + Seq::new(k as nat, |i: int| '0'),
        decreases pad_n - k,
    {
        push_char(&mut r, '0');
        k = k + 1;
        assert(r@ =~= seq!['\\', 'u'] + Seq::new(k as nat, |i: int| '0'));
    }
    let ghost pad = r@;
    push_char(&mut r, top);
    let mut j: usize = low.len();
    while j > 0
        invariant
            j <= low.len(),
            r@ == pad + digits.subrange(0, (low.len() - j + 1) as int),
            digits == seq![top] + low@.reverse(),
        decreases j,
    {
        j = j - 1;
        let d = low[j];
        push_char(&mut r, d);
        assert(r@ =~= pad + digits.subrange(0, (low.len() - j + 1) as int));
    }
    assert(digits.subrange(0, digits.len() as int) =~= digits);
    assert(r@ =~= spec_escape(c));
    r
}

/// The characters of a string slice, in order.
pub fn chars_of(s: &str) -> (r: Vec<char>)
    ensures
        r@ == s@,
{
    let mut r: Vec<char> = Vec::new();
    for c in it: s.chars()
        invariant
            r@ == it.seq().take(it.index() as int),
            it.seq() == s@,
    {
        r.push(c);
    }
    r
}

/// Converts bytes to a string the way `String::from_utf8_lossy` does: valid UTF-8 is
/// decoded, and each maximal ill-formed chunk becomes U+FFFD.
pub fn convert_bytes_to_string(data: &[u8]) -> (r: String)
    ensures
        r@ == decode_lossy(data@),
{
    decode_utf8_lossy(data)
}

/// The UTF-8 bytes of a string.
pub fn convert_str_to_bytes(string: &str) -> (r: Vec<u8>)
    ensures
        r@ == encode_utf8(string@),
{
    string.as_bytes_vec()
}

/// Encoding a string and decoding the bytes again gives back the string.
pub proof fn law_str_bytes_roundtrip(s: Seq<char>)
    ensures
        decode_lossy(encode_utf8(s)) == s,
{
    encode_utf8_valid_utf8(s);
    lemma_decode_lossy_valid(encode_utf8(s));
    encode_utf8_decode_utf8(s);
}

/// Decoding bytes and encoding the string again gives back the bytes exactly when
/// the bytes are valid UTF-8.
pub proof fn law_bytes_string_roundtrip(b: Seq<u8>)
    ensures
        encode_utf8(decode_lossy(b)) == b <==> valid_utf8(b),
{
    lemma_decode_lossy_reencode(b);
}

/// A control character: U+0000 to U+001F.
pub open spec fn is_control(c: char) -> bool {
    c <= '\x1f'
}

/// What sanitizing does to one character.
pub open spec fn sanitize_char(c: char) -> Seq<char> {
    if is_control(c) {
        spec_escape(c)
    } else {
        seq![c]
    }
}

/// Every control character replaced with its `\uXXXX` escape.
pub open spec fn spec_sanitize(s: Seq<char>) -> Seq<char>
    decreases s.len(),
{
    if s.len() == 0 {
        seq![]
    } else {
        spec_sanitize(s.drop_last()) + sanitize_char(s.last())
    }
}

/// Replaces every control character (U+0000 to U+001F) with its `\uXXXX` escape and
/// keeps every other character.
pub fn sanitize_input_string(input: &str) -> (r: String)
    ensures
        r@ == spec_sanitize(input@),
        r@.len() == input@.len() + 5 * control_count(input@),
{
    proof {
        law_sanitize_length(input@);
    }
    let cs = chars_of(input);
    let mut r = String::new();
    let mut i: usize = 0;
    while i < cs.len()
        invariant
            i <= cs.len(),
            r@ == spec_sanitize(cs@.take(i as int)),
        decreases cs.len() - i,
    {
        let c = cs[i];
        assert(cs@.take(i + 1).drop_last() =~= cs@.take(i as int));
        if c <= '\x1f' {
            let e = escape_control_character(c);
            let ghost r0 = r@;
            let ev = chars_of(e.as_str());
            let mut k: usize = 0;
            while k < ev.len()
                invariant
                    k <= ev.len(),
                    ev@ == spec_escape(c),
                    r@ == r0 + ev@.take(k as int),
                decreases ev.len() - k,
            {
                push_char(&mut r, ev[k]);
                k = k + 1;
                assert(r@ =~= r0 + ev@.take(k as int));
            }
            assert(ev@.take(k as int) =~= ev@);
        } else {
            push_char(&mut r, c);
        }
        i = i + 1;
    }
    assert(cs@.take(i as int) =~= input@);
    r
}

proof fn lemma_hex_of_not_control(n: nat)
    ensures
        forall|i: int| 0 <= i < hex_of(n).len() ==> !is_control(#[trigger] hex_of(n)[i]),
    decreases n,
{
    if n >= 16 {
        lemma_hex_of_not_control(n / 16);
        lemma_hex_digit_not_control(n % 16);
        let h = hex_of(n);
        assert forall|i: int| 0 <= i < h.len() implies !is_control(#[trigger] h[i]) by {
            if i < h.len() - 1 {
                assert(h[i] == hex_of(n / 16)[i]);
            }
        }
    } else {
        lemma_hex_digit_not_control(n);
    }
}

proof fn lemma_hex_digit_not_control(d: nat)
    requires
        d < 16,
    ensures
        !is_control(hex_digit(d)),
{
    if d < 10 {
        assert(((d + 48) as char) as int == d + 48);
    } else {
        assert(((d + 87) as char) as int == d + 87);
    }
}

proof fn lemma_escape_not_control(c: char)
    ensures
        forall|i: int| 0 <= i < spec_escape(c).len() ==> !is_control(#[trigger] spec_escape(c)[i]),
{
    lemma_hex_of_not_control(c as nat);
    let h = hex_of(c as nat);
    let e = spec_escape(c);
    assert forall|i: int| 0 <= i < e.len() implies !is_control(#[trigger] e[i]) by {
        if i >= 2 {
            let p = zero_pad(h, 4);
            assert(e[i] == p[i - 2]);
            if h.len() < 4 {
                let k = 4 - h.len();
                if i - 2 >= k {
                    assert(p[i - 2] == h[i - 2 - k]);
                }
            }
        }
    }
}

/// Sanitized text holds no control character.
pub proof fn law_sanitize_no_control(s: Seq<char>)
    ensures
        forall|i: int|
            0 <= i < spec_sanitize(s).len() ==> !is_control(#[trigger] spec_sanitize(s)[i]),
    decreases s.len(),
{
    if s.len() > 0 {
        law_sanitize_no_control(s.drop_last());
        lemma_escape_not_control(s.last());
        let a = spec_sanitize(s.drop_last());
        let b = sanitize_char(s.last());
        assert forall|i: int| 0 <= i < (a + b).len() implies !is_control(#[trigger] (a + b)[i]) by {
            if i >= a.len() {
                assert((a + b)[i] == b[i - a.len()]);
            }
        }
    }
}

/// Text without control characters is left unchanged by sanitizing.
pub proof fn law_sanitize_keeps_clean_text(s: Seq<char>)
    requires
        forall|i: int| 0 <= i < s.len() ==> !is_control(#[trigger] s[i]),
    ensures
        spec_sanitize(s) == s,
    decreases s.len(),
{
    if s.len() > 0 {
        assert(!is_control(s[s.len() - 1]));
        law_sanitize_keeps_clean_text(s.drop_last());
        assert(s.drop_last().push(s.last()) =~= s);
    }
}

/// The number of control characters in a text.
pub open spec fn control_count(s: Seq<char>) -> nat
    decreases s.len(),
{
    if s.len() == 0 {
        0
    } else {
        control_count(s.drop_last()) + if is_control(s.last()) {
            1nat
        } else {
            0nat
        }
    }
}

/// The escape of a control character is `\u00` followed by its two lowercase hex digits.
proof fn lemma_escape_control(c: char)
    requires
        is_control(c),
    ensures
        spec_escape(c) == seq!['\\', 'u', '0', '0', hex_digit(c as nat / 16), hex_digit(c as nat % 16)],
{
    let n = c as nat;
    if n < 16 {
        assert(hex_of(n) == seq![hex_digit(n)]);
        assert(hex_digit(0) == '0');
        assert(zero_pad(hex_of(n), 4) =~= seq!['0', '0', '0', hex_digit(n)]);
    } else {
        assert(hex_of(n / 16) == seq![hex_digit(n / 16)]);
        assert(hex_of(n) =~= seq![hex_digit(n / 16), hex_digit(n % 16)]);
        assert(zero_pad(hex_of(n), 4) =~= seq!['0', '0', hex_digit(n / 16), hex_digit(n % 16)]);
    }
    assert(spec_escape(c) =~= seq!['\\', 'u', '0', '0', hex_digit(n / 16), hex_digit(n % 16)]);
}

/// Sanitizing a text followed by one character gives the sanitized text followed by
/// that character, or, for a control character, by `\u00` and its two hex digits.
pub proof fn law_sanitize_appends(s: Seq<char>, c: char)
    ensures
        spec_sanitize(s.push(c)) == spec_sanitize(s) + if c <= '\x1f' {
            seq!['\\', 'u', '0', '0', hex_digit(c as nat / 16), hex_digit(c as nat % 16)]
        } else {
            seq![c]
        },
{
    assert(s.push(c).drop_last() =~= s);
    if is_control(c) {
        lemma_escape_control(c);
    }
}

/// Sanitizing a joined text is joining the sanitized parts.
pub proof fn law_sanitize_concat(a: Seq<char>, b: Seq<char>)
    ensures
        spec_sanitize(a + b) == spec_sanitize(a) + spec_sanitize(b),
    decreases b.len(),
{
    if b.len() == 0 {
        assert(a + b =~= a);
        assert(spec_sanitize(a) + spec_sanitize(b) =~= spec_sanitize(a));
    } else {
        law_sanitize_concat(a, b.drop_last());
        assert((a + b).drop_last() =~= a + b.drop_last());
        assert((a + b).last() == b.last());
        assert(spec_sanitize(a) + spec_sanitize(b) =~= spec_sanitize(a) + spec_sanitize(
            b.drop_last(),
        ) + sanitize_char(b.last()));
    }
}

/// Sanitizing lengthens a text by five characters for each control character in it,
/// and by nothing else: no character is dropped.
pub proof fn law_sanitize_length(s: Seq<char>)
    ensures
        spec_sanitize(s).len() == s.len() + 5 * control_count(s),
    decreases s.len(),
{
    if s.len() > 0 {
        law_sanitize_length(s.drop_last());
        if is_control(s.last()) {
            lemma_escape_control(s.last());
        }
    }
}

/// Sanitizing twice is the same as sanitizing once.
pub proof fn law_sanitize_idempotent(s: Seq<char>)
    ensures
        spec_sanitize(spec_sanitize(s)) == spec_sanitize(s),
{
    law_sanitize_no_control(s);
    law_sanitize_keeps_clean_text(spec_sanitize(s));
}

/// The marker `BYTES:` that the Test Manager puts before byte strings.
pub open spec fn bytes_marker() -> Seq<char> {
    seq!['B', 'Y', 'T', 'E', 'S', ':']
}

/// Every occurrence of the marker removed, scanning left to right without overlaps.
pub open spec fn spec_remove_markers(s: Seq<char>) -> Seq<char>
    decreases s.len(),
{
    if s.len() == 0 {
        seq![]
    } else if s.len() >= 6 && s.take(6) == bytes_marker() {
        spec_remove_markers(s.skip(6))
    } else {
        seq![s[0]] + spec_remove_markers(s.skip(1))
    }
}

fn marker_at(cs: &Vec<char>, i: usize) -> (r: bool)
    requires
        i <= cs.len(),
    ensures
        r == (cs@.len() - i >= 6 && cs@.skip(i as int).take(6) == bytes_marker()),
{
    if cs.len() - i < 6 {
        return false;
    }
    let r = cs[i] == 'B' && cs[i + 1] == 'Y' && cs[i + 2] == 'T' && cs[i + 3] == 'E' && cs[i + 4]
        == 'S' && cs[i + 5] == ':';
    assert(r == (cs@.skip(i as int).take(6) =~= bytes_marker()));
    r
}

/// Removes every occurrence of `BYTES:`, as `str::replace(input, "BYTES:", "")` does.
pub fn remove_bytes_markers(input: &str) -> (r: String)
    ensures
        r@ == spec_remove_markers(input@),
{
    let cs = chars_of(input);
    let mut r = String::new();
    let mut i: usize = 0;
    assert(cs@.skip(0) =~= cs@);
    while i < cs.len()
        invariant
            i <= cs.len(),
            spec_remove_markers(cs@) == r@ + spec_remove_markers(cs@.skip(i as int)),
        decreases cs.len() - i,
    {
        let ghost rest = cs@.skip(i as int);
        if marker_at(&cs, i) {
            i = i + 6;
            assert(rest.skip(6) =~= cs@.skip(i as int));
        } else {
            let ghost r0 = r@;
            push_char(&mut r, cs[i]);
            i = i + 1;
            assert(rest.skip(1) =~= cs@.skip(i as int));
            assert(r0 + (seq![rest[0]] + spec_remove_markers(cs@.skip(i as int))) =~= r@
                + spec_remove_markers(cs@.skip(i as int)));
        }
    }
    assert(r@ + spec_remove_markers(cs@.skip(i as int)) =~= r@);
    r
}

} // verus!
