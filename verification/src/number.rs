use vstd::prelude::*;
use crate::text::text_of;

verus! {

/// The decimal digit for a value below ten.
pub open spec fn digit_char(d: nat) -> char {
    if d == 0 {
        '0'
    } else if d == 1 {
        '1'
    } else if d == 2 {
        '2'
    } else if d == 3 {
        '3'
    } else if d == 4 {
        '4'
    } else if d == 5 {
        '5'
    } else if d == 6 {
        '6'
    } else if d == 7 {
        '7'
    } else if d == 8 {
        '8'
    } else {
        '9'
    }
}

/// The value of a decimal digit, if `c` is one.
pub open spec fn digit_value(c: char) -> Option<nat> {
    if c == '0' {
        Some(0)
    } else if c == '1' {
        Some(1)
    } else if c == '2' {
        Some(2)
    } else if c == '3' {
        Some(3)
    } else if c == '4' {
        Some(4)
    } else if c == '5' {
        Some(5)
    } else if c == '6' {
        Some(6)
    } else if c == '7' {
        Some(7)
    } else if c == '8' {
        Some(8)
    } else if c == '9' {
        Some(9)
    } else {
        None
    }
}

/// The decimal digits of `n`, most significant first, without leading zeros.
pub open spec fn decimal_digits(n: nat) -> Seq<char>
    decreases n,
{
    if n < 10 {
        seq![digit_char(n)]
    } else {
        decimal_digits(n / 10).push(digit_char(n % 10))
    }
}

/// The decimal text of an integer: a minus sign for a negative one, then its digits.
pub open spec fn decimal_text(value: int) -> Seq<char> {
    if value < 0 {
        seq!['-'] + decimal_digits((-value) as nat)
    } else {
        decimal_digits(value as nat)
    }
}

/// Whether every character of `s` is a decimal digit.
pub open spec fn all_digits(s: Seq<char>) -> bool {
    forall|i: int| 0 <= i < s.len() ==> (#[trigger] digit_value(s[i])) is Some
}

/// The number that a run of decimal digits writes.
pub open spec fn digits_value(s: Seq<char>) -> nat
    decreases s.len(),
{
    if s.len() == 0 {
        0
    } else {
        digits_value(s.drop_last()) * 10 + match digit_value(s.last()) {
            Some(d) => d,
            None => 0,
        }
    }
}

/// The integer that a text writes in the way `i64` is read from a string: an
/// optional sign, then at least one decimal digit, the value within the range
/// of `i64`.
pub open spec fn parsed_i64(s: Seq<char>) -> Option<i64> {
    let signed = s.len() > 0 && (s[0] == '-' || s[0] == '+');
    let body = if signed {
        s.subrange(1, s.len() as int)
    } else {
        s
    };
    let magnitude = digits_value(body) as int;
    let value = if s.len() > 0 && s[0] == '-' {
        -magnitude
    } else {
        magnitude
    };
    if body.len() == 0 || !all_digits(body) || value < i64::MIN || value > i64::MAX {
        None
    } else {
        Some(value as i64)
    }
}

/// Writing more digits never makes the number smaller.
pub proof fn lemma_digits_value_grows(s: Seq<char>, k: int)
    requires
        0 <= k <= s.len(),
    ensures
        digits_value(s.subrange(0, k)) <= digits_value(s),
    decreases s.len(),
{
    if k == s.len() {
        assert(s.subrange(0, k) =~= s);
    } else {
        lemma_digits_value_grows(s.drop_last(), k);
        assert(s.drop_last().subrange(0, k) =~= s.subrange(0, k));
    }
}

fn digit_of(c: char) -> (r: Option<u64>)
    ensures
        match r {
            Some(d) => digit_value(c) == Some(d as nat) && d < 10,
            None => digit_value(c) is None,
        },
{
    if c == '0' {
        Some(0)
    } else if c == '1' {
        Some(1)
    } else if c == '2' {
        Some(2)
    } else if c == '3' {
        Some(3)
    } else if c == '4' {
        Some(4)
    } else if c == '5' {
        Some(5)
    } else if c == '6' {
        Some(6)
    } else if c == '7' {
        Some(7)
    } else if c == '8' {
        Some(8)
    } else if c == '9' {
        Some(9)
    } else {
        None
    }
}

/// The decimal digit for a value below ten.
pub(crate) fn char_of_digit(d: u64) -> (c: char)
    requires
        d < 10,
    ensures
        c == digit_char(d as nat),
{
    if d == 0 {
        '0'
    } else if d == 1 {
        '1'
    } else if d == 2 {
        '2'
    } else if d == 3 {
        '3'
    } else if d == 4 {
        '4'
    } else if d == 5 {
        '5'
    } else if d == 6 {
        '6'
    } else if d == 7 {
        '7'
    } else if d == 8 {
        '8'
    } else {
        '9'
    }
}

/// Reads an `i64` from its decimal text.
pub fn parse_i64(text: &Vec<char>) -> (r: Option<i64>)
    ensures
        r == parsed_i64(text@),
{
    let n: usize = text.len();
    if n == 0 {
        return None;
    }
    let negative: bool = text[0] == '-';
    let start: usize = if text[0] == '-' || text[0] == '+' {
        1
    } else {
        0
    };
    if start == n {
        return None;
    }
    let ghost body = text@.subrange(start as int, n as int);
    assert(start == 0 ==> body =~= text@);
    let limit: u64 = 0x8000_0000_0000_0000;
    let mut acc: u64 = 0;
    let mut i: usize = start;
    while i < n
        invariant
            start <= i <= n,
            n == text@.len(),
            n > 0,
            negative == (text@[0] == '-'),
            start as int == if text@[0] == '-' || text@[0] == '+' {
                1int
            } else {
                0int
            },
            body == text@.subrange(start as int, n as int),
            start == 0 ==> body == text@,
            limit == 0x8000_0000_0000_0000,
            acc <= limit,
            acc == digits_value(body.subrange(0, i - start)),
            forall|j: int| 0 <= j < i - start ==> (#[trigger] digit_value(body[j])) is Some,
        decreases n - i,
    {
        let d: u64 = match digit_of(text[i]) {
            Some(d) => d,
            None => {
                assert(digit_value(body[i - start]) is None);
                return None;
            },
        };
        let ghost next = body.subrange(0, i - start + 1);
        assert(next.drop_last() =~= body.subrange(0, i - start));
        assert(next.last() == text@[i as int]);
        if acc > (limit - d) / 10 {
            proof {
                assert(digits_value(next) == acc * 10 + d);
                assert(digits_value(next) > limit);
                lemma_digits_value_grows(body, i - start + 1);
            }
            return None;
        }
        acc = acc * 10 + d;
        i += 1;
    }
    assert(body.subrange(0, n - start) =~= body);
    if negative {
        if acc == limit {
            Some(i64::MIN)
        } else {
            let m: i64 = acc as i64;
            Some(-m)
        }
    } else {
        if acc == limit {
            None
        } else {
            Some(acc as i64)
        }
    }
}

/// Appends the decimal digits of `n` to `out`.
pub fn push_decimal_digits(n: u64, out: &mut Vec<char>)
    ensures
        final(out)@ == old(out)@ + decimal_digits(n as nat),
    decreases n,
{
    if n >= 10 {
        push_decimal_digits(n / 10, out);
    }
    out.push(char_of_digit(n % 10));
    proof {
        if n >= 10 {
            assert(final(out)@ =~= old(out)@ + decimal_digits(n as nat));
        } else {
            assert(final(out)@ =~= old(out)@ + decimal_digits(n as nat));
        }
    }
}

/// The magnitude of `value`.
pub fn magnitude(value: i64) -> (m: u64)
    ensures
        m as int == if value < 0 {
            -(value as int)
        } else {
            value as int
        },
{
    if value >= 0 {
        value as u64
    } else if value == i64::MIN {
        0x8000_0000_0000_0000
    } else {
        (-value) as u64
    }
}

/// The decimal text of `value`.
pub fn decimal_chars(value: i64) -> (out: Vec<char>)
    ensures
        out@ == decimal_text(value as int),
{
    let mut out: Vec<char> = Vec::new();
    if value < 0 {
        out.push('-');
    }
    push_decimal_digits(magnitude(value), &mut out);
    assert(out@ =~= decimal_text(value as int));
    out
}

/// The first `count` digits of `digits` with a comma before each group of
/// three, groups counted from the right end of `digits`.
pub open spec fn grouped_prefix(digits: Seq<char>, count: int) -> Seq<char>
    decreases count,
{
    if count <= 0 {
        Seq::<char>::empty()
    } else {
        let before = grouped_prefix(digits, count - 1);
        let index = count - 1;
        if index > 0 && (digits.len() - index) % 3 == 0 {
            before.push(',').push(digits[index])
        } else {
            before.push(digits[index])
        }
    }
}

/// A yen amount as it is shown: digits in groups of three, a minus sign for a
/// negative amount.
pub open spec fn yen_text(value: int) -> Seq<char> {
    let digits = decimal_digits(
        (if value < 0 {
            -value
        } else {
            value
        }) as nat,
    );
    let body = grouped_prefix(digits, digits.len() as int);
    if value < 0 {
        seq!['-'] + body
    } else {
        body
    }
}

/// Formats a yen amount with a comma between groups of three digits.
pub fn format_yen(value: i64) -> (r: String)
    ensures
        r@ == yen_text(value as int),
{
    let mut digits: Vec<char> = Vec::new();
    let m: u64 = magnitude(value);
    push_decimal_digits(m, &mut digits);
    assert(digits@ =~= decimal_digits(m as nat));
    let mut out: Vec<char> = Vec::new();
    if value < 0 {
        out.push('-');
    }
    let ghost sign = out@;
    let n: usize = digits.len();
    let mut i: usize = 0;
    while i < n
        invariant
            i <= n,
            n == digits@.len(),
            out@ == sign + grouped_prefix(digits@, i as int),
        decreases n - i,
    {
        if i > 0 && (n - i) % 3 == 0 {
            out.push(',');
        }
        out.push(digits[i]);
        assert(out@ =~= sign + grouped_prefix(digits@, i as int + 1));
        i += 1;
    }
    assert(out@ =~= yen_text(value as int));
    text_of(&out)
}

} // verus!
