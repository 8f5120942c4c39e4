//! Unsigned decimal numbers in text: parsing (as `str::parse` does for
//! unsigned integers) and formatting (as `Display` does).

use vstd::prelude::*;

verus! {

/// An ASCII decimal digit.
pub open spec fn is_digit(c: char) -> bool {
    '0' <= c && c <= '9'
}

/// The value of a decimal digit.
pub open spec fn digit_value(c: char) -> nat {
    (c as int - '0' as int) as nat
}

/// Every character is a decimal digit.
pub open spec fn all_digits(s: Seq<char>) -> bool {
    forall|i: int| 0 <= i < s.len() ==> #[trigger] is_digit(s[i])
}

/// The number that a string of digits spells, most significant digit first.
pub open spec fn digits_value(s: Seq<char>) -> nat
    decreases s.len(),
{
    if s.len() == 0 {
        0
    } else {
        digits_value(s.drop_last()) * 10 + digit_value(s.last())
    }
}

/// What `str::parse` gives for an unsigned integer type whose largest value is
/// `max`: an optional leading `+`, then one or more ASCII digits, and a value
/// no larger than `max`; anything else (empty text, a lone `+`, a `-`, any
/// other character, an overflow) is refused.
pub open spec fn spec_parse_unsigned(s: Seq<char>, max: nat) -> Option<nat> {
    let digits = if s.len() > 0 && s[0] == '+' { s.drop_first() } else { s };
    if digits.len() > 0 && all_digits(digits) && digits_value(digits) <= max {
        Some(digits_value(digits))
    } else {
        None
    }
}

/// A prefix of a digit string never spells more than the whole string.
proof fn lemma_digits_value_prefix(s: Seq<char>, i: int)
    requires
        0 <= i <= s.len(),
        all_digits(s),
    ensures
        digits_value(s.take(i)) <= digits_value(s),
    decreases s.len() - i,
{
    if i < s.len() {
        lemma_digits_value_prefix(s, i + 1);
        assert(s.take(i + 1).drop_last() =~= s.take(i));
    } else {
        assert(s.take(i) =~= s);
    }
}

/// Parses `s[start..]` as an unsigned number no larger than `max`.
fn parse_digits_from(s: &[char], start: usize, max: usize) -> (r: Option<usize>)
    requires
        start <= s@.len(),
    ensures
        ({
            let d = s@.skip(start as int);
            match r {
                Some(v) => d.len() > 0 && all_digits(d) && v == digits_value(d) && v <= max,
                None => !(d.len() > 0 && all_digits(d) && digits_value(d) <= max),
            }
        }),
{
    let ghost d = s@.skip(start as int);
    if start == s.len() {
        return None;
    }
    let mut v: usize = 0;
    let mut i: usize = start;
    while i < s.len()
        invariant
            start <= i <= s@.len(),
            d == s@.skip(start as int),
            all_digits(d.take(i - start)),
            v == digits_value(d.take(i - start)),
            v <= max,
        decreases s@.len() - i,
    {
        let c = s[i];
        if !('0' <= c && c <= '9') {
            proof {
                assert(!is_digit(d[i - start]));
            }
            return None;
        }
        let dv = (c as u32 - '0' as u32) as usize;
        assert(d.take(i - start + 1).drop_last() =~= d.take(i - start));
        if dv > max || v > (max - dv) / 10 {
            proof {
                if dv <= max {
                    assert(v * 10 + dv > max) by (nonlinear_arith)
                        requires
                            v > (max - dv) / 10,
                            dv <= max,
                    ;
                }
                if all_digits(d) {
                    lemma_digits_value_prefix(d, i - start + 1);
                }
            }
            return None;
        }
        proof {
            assert(v * 10 + dv <= max) by (nonlinear_arith)
                requires
                    v <= (max - dv) / 10,
                    dv <= max,
            ;
        }
        v = v * 10 + dv;
        i = i + 1;
    }
    assert(d.take(i - start) =~= d);
    Some(v)
}

/// Parses `s` the way `str::parse` parses an unsigned integer type whose
/// largest value is `max`.
pub fn parse_unsigned(s: &[char], max: usize) -> (r: Option<usize>)
    ensures
        match r {
            Some(v) => spec_parse_unsigned(s@, max as nat) == Some(v as nat),
            None => spec_parse_unsigned(s@, max as nat) is None,
        },
{
    let start: usize = if s.len() > 0 && s[0] == '+' { 1 } else { 0 };
    assert(s@.skip(0) =~= s@);
    assert(s@.skip(1) =~= s@.drop_first());
    parse_digits_from(s, start, max)
}

/// ASCII bytes read as characters.
pub open spec fn ascii_chars(b: Seq<u8>) -> Seq<char> {
    Seq::new(b.len(), |i: int| b[i] as char)
}

/// The decimal digit byte for `d < 10`.
pub open spec fn digit_byte(d: nat) -> u8 {
    (48 + d) as u8
}

/// The shortest decimal spelling of `n`, as ASCII bytes (what `Display`
/// writes for an unsigned integer).
pub open spec fn decimal_bytes(n: nat) -> Seq<u8>
    decreases n,
{
    if n < 10 {
        seq![digit_byte(n)]
    } else {
        decimal_bytes(n / 10) + seq![digit_byte(n % 10)]
    }
}

/// Appends the decimal spelling of `n` to `out`.
pub fn push_decimal(out: &mut Vec<u8>, n: u32)
    ensures
        final(out)@ == old(out)@ + decimal_bytes(n as nat),
    decreases n,
{
    if n < 10 {
        out.push((48 + n) as u8);
    } else {
        push_decimal(out, n / 10);
        out.push((48 + n % 10) as u8);
        assert(final(out)@ =~= old(out)@ + decimal_bytes(n as nat));
    }
}

/// Reading bytes as characters distributes over concatenation.
pub proof fn lemma_ascii_chars_add(a: Seq<u8>, b: Seq<u8>)
    ensures
        ascii_chars(a + b) == ascii_chars(a) + ascii_chars(b),
{
    assert(ascii_chars(a + b) =~= ascii_chars(a) + ascii_chars(b));
}

/// The spelling of `n` is a nonempty run of digits whose value is `n`.
pub proof fn lemma_decimal_digits(n: nat)
    ensures
        ascii_chars(decimal_bytes(n)).len() > 0,
        all_digits(ascii_chars(decimal_bytes(n))),
        digits_value(ascii_chars(decimal_bytes(n))) == n,
    decreases n,
{
    let c = ascii_chars(decimal_bytes(n));
    if n < 10 {
        assert(c.drop_last() =~= Seq::<char>::empty());
        assert(digits_value(c.drop_last()) == 0);
    } else {
        lemma_decimal_digits(n / 10);
        lemma_ascii_chars_add(decimal_bytes(n / 10), seq![digit_byte(n % 10)]);
        assert(c.drop_last() =~= ascii_chars(decimal_bytes(n / 10)));
        assert forall|i: int| 0 <= i < c.len() implies #[trigger] is_digit(c[i]) by {
            if i < c.len() - 1 {
                assert(c[i] == ascii_chars(decimal_bytes(n / 10))[i]);
            }
        }
    }
}

/// Reading back what `push_decimal` writes gives the number that was written,
/// for any integer type that can hold it.
pub proof fn lemma_parse_decimal_roundtrip(n: nat, max: nat)
    requires
        n <= max,
    ensures
        spec_parse_unsigned(ascii_chars(decimal_bytes(n)), max) == Some(n),
{
    lemma_decimal_digits(n);
    let c = ascii_chars(decimal_bytes(n));
    assert(is_digit(c[0]));
}

} // verus!
