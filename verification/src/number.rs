//! Decimal notation for 32-bit signed integers.

use vstd::prelude::*;
use vstd::string::StringExecFns;

verus! {

/// Whether `c` is one of the ten decimal digits.
pub open spec fn is_digit(c: char) -> bool {
    '0' <= c && c <= '9'
}

/// The number that the digit `c` stands for.
pub open spec fn digit_value(c: char) -> int {
    c as int - '0' as int
}

/// The digit that stands for `d`, for `0 <= d < 10`.
pub open spec fn digit_char(d: int) -> char {
    seq!['0', '1', '2', '3', '4', '5', '6', '7', '8', '9'][d]
}

/// Whether `s` holds decimal digits only.
pub open spec fn all_digits(s: Seq<char>) -> bool {
    forall|i: int| 0 <= i < s.len() ==> is_digit(#[trigger] s[i])
}

/// The number written by the digits `s`, most significant first.
pub open spec fn decimal_value(s: Seq<char>) -> int
    decreases s.len(),
{
    if s.len() == 0 {
        0
    } else {
        decimal_value(s.drop_last()) * 10 + digit_value(s.last())
    }
}

/// Whether `s` starts with a sign character.
pub open spec fn has_sign(s: Seq<char>) -> bool {
    s.len() > 0 && (s[0] == '-' || s[0] == '+')
}

/// The part of `s` after its optional sign.
pub open spec fn magnitude_digits(s: Seq<char>) -> Seq<char> {
    if has_sign(s) {
        s.skip(1)
    } else {
        s
    }
}

/// The integer that `s` denotes before any range check: an optional `+` or `-`
/// followed by the digits of its magnitude.
pub open spec fn signed_value(s: Seq<char>) -> int {
    if s.len() > 0 && s[0] == '-' {
        -decimal_value(magnitude_digits(s))
    } else {
        decimal_value(magnitude_digits(s))
    }
}

/// Whether `s` is an optional sign followed by at least one digit and nothing
/// else.
pub open spec fn is_numeral(s: Seq<char>) -> bool {
    magnitude_digits(s).len() > 0 && all_digits(magnitude_digits(s))
}

/// Why a text is not read as an `i32`.
#[derive(Clone, Copy, Debug, PartialEq, Eq, Structural)]
pub enum NumberError {
    /// The text is not an optional sign followed by digits.
    NotANumeral,
    /// The text is a numeral, and its value does not fit an `i32`.
    OutOfRange,
}

/// The `i32` that the text `s` denotes, or why it denotes none.
pub open spec fn read_i32(s: Seq<char>) -> Result<i32, NumberError> {
    if !is_numeral(s) {
        Err(NumberError::NotANumeral)
    } else if i32::MIN <= signed_value(s) <= i32::MAX {
        Ok(signed_value(s) as i32)
    } else {
        Err(NumberError::OutOfRange)
    }
}

/// The digits of `n` without leading zeros (`0` is written `0`).
pub open spec fn digits_text(n: nat) -> Seq<char>
    decreases n,
{
    if n < 10 {
        seq![digit_char(n as int)]
    } else {
        digits_text(n / 10).push(digit_char((n % 10) as int))
    }
}

/// The decimal notation of `v`: a `-` for negative numbers, then the digits of
/// the magnitude.
pub open spec fn decimal_text(v: int) -> Seq<char> {
    if v < 0 {
        seq!['-'] + digits_text((-v) as nat)
    } else {
        digits_text(v as nat)
    }
}

/// Each of the ten digits stands for its own value.
pub proof fn lemma_digit_char(d: int)
    requires
        0 <= d < 10,
    ensures
        is_digit(digit_char(d)),
        digit_value(digit_char(d)) == d,
        digit_char(d) != '-',
        digit_char(d) != '+',
{
}

/// The digits of `n` are digits only, at least one, and denote `n`.
pub proof fn lemma_digits_text(n: nat)
    ensures
        digits_text(n).len() > 0,
        all_digits(digits_text(n)),
        !has_sign(digits_text(n)),
        decimal_value(digits_text(n)) == n,
    decreases n,
{
    if n < 10 {
        lemma_digit_char(n as int);
        let text = digits_text(n);
        assert(text.drop_last().len() == 0);
        assert(decimal_value(text.drop_last()) == 0);
    } else {
        lemma_digits_text(n / 10);
        lemma_digit_char((n % 10) as int);
        let front = digits_text(n / 10);
        let text = digits_text(n);
        assert(text == front.push(digit_char((n % 10) as int)));
        assert(text.drop_last() == front);
        assert(text[0] == front[0]);
        assert forall|i: int| 0 <= i < text.len() implies is_digit(#[trigger] text[i]) by {
            if i < front.len() {
                assert(text[i] == front[i]);
            }
        }
    }
}

/// Every `i32` is read back from its decimal notation.
pub proof fn lemma_decimal_text_reads_back(v: i32)
    ensures
        is_numeral(decimal_text(v as int)),
        signed_value(decimal_text(v as int)) == v,
        read_i32(decimal_text(v as int)) == Ok::<i32, NumberError>(v),
{
    if v < 0 {
        let digits = digits_text((-v) as nat);
        lemma_digits_text((-v) as nat);
        let text = decimal_text(v as int);
        assert(text[0] == '-');
        assert(text.skip(1) == digits);
    } else {
        lemma_digits_text(v as nat);
    }
}

/// The value of the digit `c`, or `None` where `c` is no digit.
pub fn digit_of(c: char) -> (d: Option<u8>)
    ensures
        is_digit(c) ==> d == Some(digit_value(c) as u8),
        !is_digit(c) ==> d is None,
{
    match c {
        '0' => Some(0),
        '1' => Some(1),
        '2' => Some(2),
        '3' => Some(3),
        '4' => Some(4),
        '5' => Some(5),
        '6' => Some(6),
        '7' => Some(7),
        '8' => Some(8),
        '9' => Some(9),
        _ => None,
    }
}

/// Reads `token` as a decimal `i32`: an optional sign, then digits only.
pub fn parse_i32(token: &Vec<char>) -> (value: Result<i32, NumberError>)
    ensures
        value == read_i32(token@),
{
    let n = token.len();
    if n == 0 {
        return Err(NumberError::NotANumeral);
    }
    let negative = token[0] == '-';
    let start: usize = if token[0] == '-' || token[0] == '+' {
        1
    } else {
        0
    };
    let ghost digits = magnitude_digits(token@);
    if start == n {
        return Err(NumberError::NotANumeral);
    }
    let mut acc: i64 = 0;
    let mut too_large = false;
    let mut i: usize = start;
    assert(digits.take(0).len() == 0);
    while i < n
        invariant
            start <= i <= n,
            n == token.len(),
            digits == token@.skip(start as int),
            digits == magnitude_digits(token@),
            negative == (token@[0] == '-'),
            all_digits(digits.take(i - start)),
            !too_large ==> acc == decimal_value(digits.take(i - start)),
            too_large ==> decimal_value(digits.take(i - start)) > 2147483648,
            0 <= acc <= 2147483648,
        decreases n - i,
    {
        let c = token[i];
        let ghost k = i - start;
        assert(digits[k] == c);
        match digit_of(c) {
            None => {
                assert(!is_digit(digits[k]));
                return Err(NumberError::NotANumeral);
            },
            Some(d) => {
                proof {
                    let next = digits.take(k + 1);
                    assert(next.drop_last() == digits.take(k));
                    assert(next.last() == c);
                    assert forall|j: int| 0 <= j < next.len() implies is_digit(#[trigger] next[j]) by {
                        if j < k {
                            assert(digits.take(k)[j] == next[j]);
                        }
                    }
                }
                if !too_large {
                    acc = acc * 10 + d as i64;
                    if acc > 2147483648 {
                        too_large = true;
                        acc = 0;
                    }
                }
                i += 1;
            },
        }
    }
    assert(digits.take(n - start) == digits);
    if too_large {
        Err(NumberError::OutOfRange)
    } else if negative {
        Ok((-acc) as i32)
    } else if acc > 2147483647 {
        Err(NumberError::OutOfRange)
    } else {
        Ok(acc as i32)
    }
}

/// The one-character text of the digit `d`.
fn digit_str(d: u32) -> (s: &'static str)
    requires
        d < 10,
    ensures
        s@ == seq![digit_char(d as int)],
{
    proof {
        reveal_strlit("0");
        reveal_strlit("1");
        reveal_strlit("2");
        reveal_strlit("3");
        reveal_strlit("4");
        reveal_strlit("5");
        reveal_strlit("6");
        reveal_strlit("7");
        reveal_strlit("8");
        reveal_strlit("9");
    }
    let s = match d {
        0 => "0",
        1 => "1",
        2 => "2",
        3 => "3",
        4 => "4",
        5 => "5",
        6 => "6",
        7 => "7",
        8 => "8",
        _ => "9",
    };
    assert(s@ =~= seq![digit_char(d as int)]);
    s
}

/// Appends the digits of `n` to `out`.
pub fn push_digits(out: &mut String, n: u32)
    ensures
        final(out)@ == old(out)@ + digits_text(n as nat),
    decreases n,
{
    if n >= 10 {
        push_digits(out, n / 10);
    }
    out.append(digit_str(n % 10));
    assert(out@ =~= old(out)@ + digits_text(n as nat));
}

/// Appends the decimal notation of `v` to `out`.
pub fn push_decimal(out: &mut String, v: i32)
    ensures
        final(out)@ == old(out)@ + decimal_text(v as int),
{
    if v < 0 {
        proof {
            reveal_strlit("-");
        }
        out.append("-");
        let magnitude: u32 = (-(v as i64)) as u32;
        push_digits(out, magnitude);
        assert(out@ =~= old(out)@ + decimal_text(v as int));
    } else {
        push_digits(out, v as u32);
    }
}

/// The decimal notation of `v`.
pub fn format_i32(v: i32) -> (s: String)
    ensures
        s@ == decimal_text(v as int),
{
    let mut s = String::new();
    push_decimal(&mut s, v);
    assert(s@ =~= decimal_text(v as int));
    s
}

} // verus!
