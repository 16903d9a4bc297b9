use vstd::prelude::*;
use crate::std_support::push_char;
use crate::text::chars_of;

verus! {

/// A decimal digit character.
pub open spec fn is_digit(c: char) -> bool {
    '0' <= c <= '9'
}

/// The value of a string of decimal digits.
pub open spec fn digits_value(s: Seq<char>) -> nat
    decreases s.len(),
{
    if s.len() == 0 {
        0
    } else {
        digits_value(s.drop_last()) * 10 + (s.last() as nat - 48) as nat
    }
}

/// A non-empty string of decimal digits whose value is at most `max`, and that value.
pub open spec fn spec_parse_digits(d: Seq<char>, max: nat) -> Option<nat> {
    if d.len() > 0 && (forall|i: int| 0 <= i < d.len() ==> is_digit(#[trigger] d[i]))
        && digits_value(d) <= max {
        Some(digits_value(d))
    } else {
        None
    }
}

/// `str::parse` for an unsigned integer type whose largest value is `max`: an optional
/// `+`, then decimal digits whose value fits.
pub open spec fn spec_parse_unsigned(s: Seq<char>, max: nat) -> Option<nat> {
    if s.len() > 0 && s[0] == '+' {
        spec_parse_digits(s.skip(1), max)
    } else {
        spec_parse_digits(s, max)
    }
}

/// `str::parse::<i32>`: an optional sign, then decimal digits whose signed value fits.
pub open spec fn spec_parse_i32(s: Seq<char>) -> Option<int> {
    if s.len() > 0 && s[0] == '-' {
        match spec_parse_digits(s.skip(1), 0x8000_0000) {
            Some(v) => Some(-v),
            None => None,
        }
    } else {
        match spec_parse_unsigned(s, 0x7fff_ffff) {
            Some(v) => Some(v as int),
            None => None,
        }
    }
}

proof fn lemma_digits_value_prefix(s: Seq<char>, i: int)
    requires
        0 <= i <= s.len(),
        forall|k: int| 0 <= k < s.len() ==> is_digit(#[trigger] s[k]),
    ensures
        digits_value(s.take(i)) <= digits_value(s),
    decreases s.len() - i,
{
    if i < s.len() {
        lemma_digits_value_prefix(s, i + 1);
        assert(s.take(i + 1).drop_last() =~= s.take(i));
    } else {
        assert(s.take(i) =~= s);
    }
}

/// Parses `cs[start..]` as decimal digits with value at most `max`.
fn parse_digits(cs: &Vec<char>, start: usize, max: u64) -> (r: Option<u64>)
    requires
        start <= cs.len(),
    ensures
        r matches Some(v) ==> spec_parse_digits(cs@.skip(start as int), max as nat) == Some(v as nat),
        r is None ==> spec_parse_digits(cs@.skip(start as int), max as nat) is None,
{
    let ghost d = cs@.skip(start as int);
    if start == cs.len() {
        return None;
    }
    let mut acc: u64 = 0;
    let mut i: usize = start;
    while i < cs.len()
        invariant
            start <= i <= cs.len(),
            d == cs@.skip(start as int),
            forall|k: int| 0 <= k < i - start ==> is_digit(#[trigger] d[k]),
            acc as nat == digits_value(d.take(i - start)),
            acc <= max,
        decreases cs.len() - i,
    {
        let c = cs[i];
        if !('0' <= c && c <= '9') {
            assert(!is_digit(d[i - start]));
            return None;
        }
        let dv: u64 = (c as u32 - 48) as u64;
        assert(d.take(i - start + 1).drop_last() =~= d.take(i - start));
        assert(d.take(i - start + 1).last() == c);
        let next = match acc.checked_mul(10) {
            Some(m) => m.checked_add(dv),
            None => None,
        };
        match next {
            Some(n) => {
                if n > max {
                    proof {
                        if forall|k: int| 0 <= k < d.len() ==> is_digit(#[trigger] d[k]) {
                            lemma_digits_value_prefix(d, i - start + 1);
                        }
                    }
                    return None;
                }
                acc = n;
            },
            None => {
                proof {
                    if forall|k: int| 0 <= k < d.len() ==> is_digit(#[trigger] d[k]) {
                        lemma_digits_value_prefix(d, i - start + 1);
                    }
                }
                return None;
            },
        }
        i = i + 1;
    }
    assert(d.take(i - start) =~= d);
    Some(acc)
}

/// Parses a `u32` as `str::parse::<u32>` does.
pub fn parse_u32(s: &str) -> (r: Option<u32>)
    ensures
        r matches Some(v) ==> spec_parse_unsigned(s@, u32::MAX as nat) == Some(v as nat),
        r is None ==> spec_parse_unsigned(s@, u32::MAX as nat) is None,
{
    let cs = chars_of(s);
    let start: usize = if cs.len() > 0 && cs[0] == '+' {
        1
    } else {
        0
    };
    assert(cs@.skip(0) =~= cs@);
    match parse_digits(&cs, start, u32::MAX as u64) {
        Some(v) => Some(v as u32),
        None => None,
    }
}

/// Parses a `u64` as `str::parse::<u64>` does.
pub fn parse_u64(s: &str) -> (r: Option<u64>)
    ensures
        r matches Some(v) ==> spec_parse_unsigned(s@, u64::MAX as nat) == Some(v as nat),
        r is None ==> spec_parse_unsigned(s@, u64::MAX as nat) is None,
{
    let cs = chars_of(s);
    let start: usize = if cs.len() > 0 && cs[0] == '+' {
        1
    } else {
        0
    };
    assert(cs@.skip(0) =~= cs@);
    parse_digits(&cs, start, u64::MAX)
}

/// Parses an `i32` as `str::parse::<i32>` does.
pub fn parse_i32(s: &str) -> (r: Option<i32>)
    ensures
        r matches Some(v) ==> spec_parse_i32(s@) == Some(v as int),
        r is None ==> spec_parse_i32(s@) is None,
{
    let cs = chars_of(s);
    assert(cs@.skip(0) =~= cs@);
    if cs.len() > 0 && cs[0] == '-' {
        match parse_digits(&cs, 1, 0x8000_0000) {
            Some(v) => {
                let m: i64 = 0 - (v as i64);
                Some(m as i32)
            },
            None => None,
        }
    } else {
        let start: usize = if cs.len() > 0 && cs[0] == '+' {
            1
        } else {
            0
        };
        match parse_digits(&cs, start, 0x7fff_ffff) {
            Some(v) => Some(v as i32),
            None => None,
        }
    }
}

/// Decimal notation of `n`, without leading zeros.
pub open spec fn dec_of(n: nat) -> Seq<char>
    decreases n,
{
    if n < 10 {
        seq![(n + 48) as char]
    } else {
        dec_of(n / 10).push(((n % 10) + 48) as char)
    }
}

proof fn lemma_dec_of_digits(n: nat)
    ensures
        dec_of(n).len() > 0,
        forall|i: int| 0 <= i < dec_of(n).len() ==> is_digit(#[trigger] dec_of(n)[i]),
        digits_value(dec_of(n)) == n,
    decreases n,
{
    if n >= 10 {
        lemma_dec_of_digits(n / 10);
        let d = dec_of(n);
        assert(d.drop_last() =~= dec_of(n / 10));
        assert(d.last() as nat == n % 10 + 48);
        assert((n / 10) * 10 + n % 10 == n);
        assert(digits_value(d.drop_last()) == n / 10);
        assert(digits_value(d) == digits_value(d.drop_last()) * 10 + (d.last() as nat - 48) as nat);
        assert((d.last() as nat - 48) as nat == n % 10);
        assert(digits_value(d) == n);
        assert forall|i: int| 0 <= i < d.len() implies is_digit(#[trigger] d[i]) by {
            if i < d.len() - 1 {
                assert(d[i] == dec_of(n / 10)[i]);
            }
        }
    } else {
        let d = dec_of(n);
        assert(d.drop_last() =~= Seq::<char>::empty());
        assert(d.last() as nat == n + 48);
        assert(digits_value(d.drop_last()) == 0);
        assert(digits_value(d) == n);
    }
}

/// Parsing the decimal text of a number gives back the number, for every integer
/// type that holds it.
pub proof fn law_decimal_text_parses_back(n: nat, max: nat)
    requires
        n <= max,
    ensures
        spec_parse_unsigned(dec_of(n), max) == Some(n),
{
    lemma_dec_of_digits(n);
    assert(is_digit(dec_of(n)[0]));
}

/// The decimal text of a number, as `to_string` writes it.
pub fn decimal_text(v: u64) -> (r: String)
    ensures
        r@ == dec_of(v as nat),
{
    let mut n: u64 = v;
    let mut low: Vec<char> = Vec::new();
    while n >= 10
        invariant
            dec_of(v as nat) == dec_of(n as nat) + low@.reverse(),
        decreases n,
    {
        let d: char = ((n % 10) as u8 + 48) as char;
        low.push(d);
        proof {
            assert(dec_of(n as nat) == dec_of((n / 10) as nat).push((((n % 10) as nat) + 48) as char));
        }
        n = n / 10;
        assert(low@.reverse() =~= seq![d] + low@.drop_last().reverse());
    }
    let top: char = (n as u8 + 48) as char;
    let ghost digits = seq![top] + low@.reverse();
    assert(digits =~= dec_of(v as nat));
    let mut r = String::new();
    push_char(&mut r, top);
    let mut j: usize = low.len();
    while j > 0
        invariant
            j <= low.len(),
            r@ == digits.subrange(0, (low.len() - j + 1) as int),
            digits == seq![top] + low@.reverse(),
        decreases j,
    {
        j = j - 1;
        let d = low[j];
        push_char(&mut r, d);
        assert(r@ =~= digits.subrange(0, (low.len() - j + 1) as int));
    }
    assert(digits.subrange(0, digits.len() as int) =~= digits);
    r
}

} // verus!
