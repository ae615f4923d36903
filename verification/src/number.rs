//! Decimal integer literals: what counts as one, its value, and the exact
//! text a value prints as. The lexer classifies words with `parse_i64`, and
//! the evaluator prints arithmetic results with `render_i64`.

use vstd::prelude::*;

verus! {

/// The character is a decimal digit.
pub open spec fn is_digit(c: char) -> bool {
    '0' as int <= c as int && c as int <= '9' as int
}

/// The numeric value of a digit character.
pub open spec fn digit_val(c: char) -> int {
    c as int - '0' as int
}

/// The digit character for a value between 0 and 9.
pub open spec fn digit_char(d: int) -> char {
    if d == 0 {
        '0'
    } else if d == 1 {
        '1'
    } else if d == 2 {
        '2'
    } else if d == 3 {
        '3'
    } else if d == 4 {
        '4'
    } else if d == 5 {
        '5'
    } else if d == 6 {
        '6'
    } else if d == 7 {
        '7'
    } else if d == 8 {
        '8'
    } else {
        '9'
    }
}

/// Every character of the sequence is a decimal digit.
pub open spec fn all_digits(s: Seq<char>) -> bool {
    forall|i: int| 0 <= i < s.len() ==> is_digit(s[i])
}

/// The value of a digit string, most significant digit first.
pub open spec fn digits_val(s: Seq<char>) -> int
    decreases s.len(),
{
    if s.len() == 0 {
        0
    } else {
        digits_val(s.drop_last()) * 10 + digit_val(s.last())
    }
}

/// The digit part of an integer literal: everything after an optional sign.
pub open spec fn literal_digits(s: Seq<char>) -> Seq<char> {
    if s.len() > 0 && (s[0] == '+' || s[0] == '-') {
        s.drop_first()
    } else {
        s
    }
}

/// The signed value of an integer literal.
pub open spec fn literal_val(s: Seq<char>) -> int {
    if s.len() > 0 && s[0] == '-' {
        -digits_val(literal_digits(s))
    } else {
        digits_val(literal_digits(s))
    }
}

/// The text is an integer literal whose value fits in an `i64`: an optional
/// sign, then one or more digits, with a value between `i64::MIN` and
/// `i64::MAX`.
pub open spec fn is_i64_literal(s: Seq<char>) -> bool {
    &&& literal_digits(s).len() > 0
    &&& all_digits(literal_digits(s))
    &&& i64::MIN <= literal_val(s) <= i64::MAX
}

/// The decimal digit string of a nonnegative value, without leading zeros
/// (a lone zero for zero).
pub open spec fn dec_digits(n: int) -> Seq<char>
    decreases n,
{
    if n < 10 {
        seq![digit_char(n)]
    } else {
        dec_digits(n / 10).push(digit_char(n % 10))
    }
}

/// The canonical decimal text of a value: a minus sign for negative values,
/// then the digits without leading zeros.
pub open spec fn spec_render_i64(n: int) -> Seq<char> {
    if n < 0 {
        seq!['-'] + dec_digits(-n)
    } else {
        dec_digits(n)
    }
}

/// The value of an all-digit string is nonnegative.
proof fn lemma_digits_val_nonneg(s: Seq<char>)
    requires
        all_digits(s),
    ensures
        digits_val(s) >= 0,
    decreases s.len(),
{
    if s.len() > 0 {
        assert(all_digits(s.drop_last()));
        lemma_digits_val_nonneg(s.drop_last());
    }
}

/// Dropping trailing digits never increases the value of an all-digit string.
proof fn lemma_digits_val_prefix(s: Seq<char>, i: int)
    requires
        all_digits(s),
        0 <= i <= s.len(),
    ensures
        digits_val(s.take(i)) <= digits_val(s),
    decreases s.len() - i,
{
    if i < s.len() {
        let t = s.take(i + 1);
        assert(t.drop_last() =~= s.take(i));
        assert(all_digits(s.take(i)));
        lemma_digits_val_nonneg(s.take(i));
        assert(digits_val(t) == digits_val(s.take(i)) * 10 + digit_val(t.last()));
        assert(digits_val(s.take(i)) * 10 >= digits_val(s.take(i)));
        lemma_digits_val_prefix(s, i + 1);
    } else {
        assert(s.take(i) =~= s);
    }
}

/// Parses a decimal integer literal: `Some` exactly on texts that are `i64`
/// literals, returning the literal's value.
pub fn parse_i64(s: &str) -> (r: Option<i64>)
    ensures
        r is Some <==> is_i64_literal(s@),
        r matches Some(v) ==> v == literal_val(s@),
{
    let n = s.unicode_len();
    if n == 0 {
        return None;
    }
    let c0 = s.get_char(0);
    let neg = c0 == '-';
    let start: usize = if c0 == '-' || c0 == '+' {
        1
    } else {
        0
    };
    proof {
        assert(literal_digits(s@) =~= s@.subrange(start as int, n as int));
    }
    if start == n {
        return None;
    }
    let ghost digits = literal_digits(s@);
    let mut acc: u64 = 0;
    let mut i: usize = start;
    while i < n
        invariant
            start <= i <= n,
            start < n,
            n == s@.len(),
            start == 1 || start == 0,
            digits == s@.subrange(start as int, n as int),
            digits == literal_digits(s@),
            neg == (s@[0] == '-'),
            all_digits(digits.take(i - start)),
            acc as int == digits_val(digits.take(i - start)),
        decreases n - i,
    {
        let c = s.get_char(i);
        let cv = c as u32;
        proof {
            assert(digits.take(i + 1 - start).drop_last() =~= digits.take(i - start));
            assert(digits.take(i + 1 - start).last() == s@[i as int]);
        }
        if cv < 48 || cv > 57 {
            proof {
                assert(!is_digit(digits[i - start]));
                assert(!all_digits(digits));
                assert(!is_i64_literal(s@));
            }
            return None;
        }
        let d = (cv - 48) as u64;
        assert(d as int == digit_val(s@[i as int]));
        let step = match acc.checked_mul(10) {
            Some(a) => a.checked_add(d),
            None => None,
        };
        match step {
            Some(b) => {
                acc = b;
            },
            None => {
                proof {
                    let k = i + 1 - start;
                    let t = digits.take(k);
                    assert(t.len() == k);
                    assert(digits_val(t) == digits_val(t.drop_last()) * 10 + digit_val(t.last()));
                    assert(digits_val(t) == acc as int * 10 + d as int);
                    assert(digits_val(t) > u64::MAX as int);
                    if all_digits(digits) {
                        lemma_digits_val_prefix(digits, k);
                        assert(digits_val(digits) > i64::MAX as int);
                        assert(-digits_val(digits) < i64::MIN as int);
                        assert(!is_i64_literal(s@));
                    } else {
                        assert(!is_i64_literal(s@));
                    }
                }
                return None;
            },
        }
        i += 1;
    }
    proof {
        assert(digits.take(n - start) =~= digits);
    }
    if neg {
        if acc <= i64::MAX as u64 {
            Some(-(acc as i64))
        } else if acc == 9223372036854775808u64 {
            Some(i64::MIN)
        } else {
            proof {
                assert(literal_val(s@) < i64::MIN as int);
            }
            None
        }
    } else {
        if acc <= i64::MAX as u64 {
            Some(acc as i64)
        } else {
            proof {
                assert(literal_val(s@) > i64::MAX as int);
            }
            None
        }
    }
}

/// Appends one character to a string.
///
/// Relies on `String::push`: it appends the given character to the end of
/// the string.
#[verifier::external_body]
pub(crate) fn push_char(s: &mut String, c: char)
    ensures
        final(s)@ == old(s)@.push(c),
{
    s.push(c);
}

/// Prints a value as its canonical decimal text.
pub fn render_i64(n: i64) -> (r: String)
    ensures
        r@ == spec_render_i64(n as int),
{
    let m128: i128 = n as i128;
    let mag: u64 = if m128 < 0 {
        (-m128) as u64
    } else {
        m128 as u64
    };
    let mut digits: Vec<char> = Vec::new();
    let mut m: u64 = mag;
    let d0 = (m % 10) as u8;
    digits.push((48 + d0) as char);
    proof {
        assert((48 + d0) as char == digit_char(mag as int % 10));
    }
    m = m / 10;
    while m > 0
        invariant
            m >= 0,
            m == 0 ==> dec_digits(mag as int) =~= digits@.reverse(),
            m > 0 ==> dec_digits(mag as int) =~= dec_digits(m as int) + digits@.reverse(),
        decreases m,
    {
        let d = (m % 10) as u8;
        let c = (48 + d) as char;
        proof {
            assert(c == digit_char(m as int % 10));
            assert(digits@.push(c).reverse() =~= seq![c] + digits@.reverse());
            if m >= 10 {
                assert(dec_digits(m as int) =~= dec_digits(m as int / 10) + seq![c]);
            } else {
                assert(dec_digits(m as int) =~= seq![c]);
            }
        }
        digits.push(c);
        m = m / 10;
    }
    let mut out = String::new();
    if n < 0 {
        push_char(&mut out, '-');
    }
    let ghost prefix = out@;
    let mut i: usize = digits.len();
    while i > 0
        invariant
            i <= digits@.len(),
            out@ == prefix + digits@.reverse().take(digits@.len() - i),
        decreases i,
    {
        i -= 1;
        proof {
            assert(digits@.reverse()[digits@.len() - 1 - i] == digits@[i as int]);
            assert(out@.push(digits@[i as int]) =~= prefix + digits@.reverse().take(
                digits@.len() - i,
            ));
        }
        push_char(&mut out, digits[i]);
    }
    proof {
        assert(digits@.reverse().take(digits@.len() as int) =~= digits@.reverse());
        if n < 0 {
            assert(mag as int == -(n as int));
            assert(out@ =~= spec_render_i64(n as int));
        } else {
            assert(mag as int == n as int);
            assert(prefix =~= Seq::<char>::empty());
            assert(out@ =~= spec_render_i64(n as int));
        }
    }
    out
}

/// The canonical decimal text of a value is an `i64` literal, and its value
/// is the value printed: printing then parsing gives the number back.
pub proof fn lemma_render_round_trip(n: int)
    requires
        i64::MIN <= n <= i64::MAX,
    ensures
        is_i64_literal(spec_render_i64(n)),
        literal_val(spec_render_i64(n)) == n,
{
    if n < 0 {
        lemma_dec_digits_val(-n);
        assert(literal_digits(spec_render_i64(n)) =~= dec_digits(-n));
    } else {
        lemma_dec_digits_val(n);
        assert(spec_render_i64(n)[0] != '-' && spec_render_i64(n)[0] != '+');
        assert(literal_digits(spec_render_i64(n)) =~= dec_digits(n));
    }
}

/// The digit string of a nonnegative value is all digits and reads back as
/// the value itself.
proof fn lemma_dec_digits_val(n: int)
    requires
        n >= 0,
    ensures
        dec_digits(n).len() >= 1,
        all_digits(dec_digits(n)),
        digits_val(dec_digits(n)) == n,
        is_digit(dec_digits(n)[0]),
    decreases n,
{
    if n < 10 {
        let s = dec_digits(n);
        assert(s =~= seq![digit_char(n)]);
        assert(s.drop_last() =~= Seq::<char>::empty());
        assert(s.last() == digit_char(n));
        assert(digits_val(s) == digits_val(Seq::<char>::empty()) * 10 + digit_val(digit_char(n)));
    } else {
        lemma_dec_digits_val(n / 10);
        let s = dec_digits(n);
        assert(s.drop_last() =~= dec_digits(n / 10));
        assert(digits_val(s) == digits_val(dec_digits(n / 10)) * 10 + digit_val(
            digit_char(n % 10),
        ));
        assert(s[0] == dec_digits(n / 10)[0]);
    }
}

} // verus!
