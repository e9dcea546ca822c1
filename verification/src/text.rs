//! Numbers and bytes as text.

use vstd::prelude::*;
use vstd::string::*;

verus! {

/// The character of a decimal digit.
pub open spec fn digit_char(d: int) -> char {
    if d == 0 {
        '0'
    } else if d == 1 {
        '1'
    } else if d == 2 {
        '2'
    } else if d == 3 {
        '3'
    } else if d == 4 {
        '4'
    } else if d == 5 {
        '5'
    } else if d == 6 {
        '6'
    } else if d == 7 {
        '7'
    } else if d == 8 {
        '8'
    } else {
        '9'
    }
}

/// The decimal digits of `n`, without leading zeros.
pub open spec fn digits(n: nat) -> Seq<char>
    decreases n,
{
    if n < 10 {
        seq![digit_char(n as int)]
    } else {
        digits(n / 10).push(digit_char((n % 10) as int))
    }
}

/// `n` written in decimal, with a minus sign where it is negative.
pub open spec fn decimal_text(n: int) -> Seq<char> {
    if n < 0 {
        seq!['-'] + digits((-n) as nat)
    } else {
        digits(n as nat)
    }
}

/// The character of a hexadecimal digit, in lower case.
pub open spec fn hex_char(d: int) -> char {
    if d < 10 {
        digit_char(d)
    } else if d == 10 {
        'a'
    } else if d == 11 {
        'b'
    } else if d == 12 {
        'c'
    } else if d == 13 {
        'd'
    } else if d == 14 {
        'e'
    } else {
        'f'
    }
}

/// `bytes` written as two lower-case hexadecimal digits each.
pub open spec fn hex_text(bytes: Seq<u8>) -> Seq<char>
    decreases bytes.len(),
{
    if bytes.len() == 0 {
        Seq::empty()
    } else {
        hex_text(bytes.drop_last()).push(hex_char(bytes.last() as int / 16)).push(
            hex_char(bytes.last() as int % 16),
        )
    }
}

/// The text of one hexadecimal digit.
fn hex_digit(d: u8) -> (text: &'static str)
    requires
        d < 16,
    ensures
        text@ == seq![hex_char(d as int)],
{
    proof {
        reveal_strlit("0");
        reveal_strlit("1");
        reveal_strlit("2");
        reveal_strlit("3");
        reveal_strlit("4");
        reveal_strlit("5");
        reveal_strlit("6");
        reveal_strlit("7");
        reveal_strlit("8");
        reveal_strlit("9");
        reveal_strlit("a");
        reveal_strlit("b");
        reveal_strlit("c");
        reveal_strlit("d");
        reveal_strlit("e");
        reveal_strlit("f");
    }
    let text = if d == 0 {
        "0"
    } else if d == 1 {
        "1"
    } else if d == 2 {
        "2"
    } else if d == 3 {
        "3"
    } else if d == 4 {
        "4"
    } else if d == 5 {
        "5"
    } else if d == 6 {
        "6"
    } else if d == 7 {
        "7"
    } else if d == 8 {
        "8"
    } else if d == 9 {
        "9"
    } else if d == 10 {
        "a"
    } else if d == 11 {
        "b"
    } else if d == 12 {
        "c"
    } else if d == 13 {
        "d"
    } else if d == 14 {
        "e"
    } else {
        "f"
    };
    text
}

/// Appends the decimal digits of `n` to `text`.
fn push_digits(text: &mut String, n: u64)
    ensures
        final(text)@ == old(text)@ + digits(n as nat),
    decreases n,
{
    if n >= 10 {
        push_digits(text, n / 10);
    }
    text.append(hex_digit((n % 10) as u8));
}

/// `n` written in decimal.
pub fn decimal(n: i64) -> (text: String)
    ensures
        text@ == decimal_text(n as int),
{
    let mut text = String::new();
    if n < 0 {
        proof {
            reveal_strlit("-");
        }
        text.append("-");
        let size: u64 = if n == i64::MIN {
            0x8000_0000_0000_0000
        } else {
            (-n) as u64
        };
        push_digits(&mut text, size);
    } else {
        push_digits(&mut text, n as u64);
    }
    text
}

/// `bytes` written as two lower-case hexadecimal digits each.
pub fn hex(bytes: &[u8]) -> (text: String)
    ensures
        text@ == hex_text(bytes@),
{
    let mut text = String::new();
    let mut k: usize = 0;
    while k < bytes.len()
        invariant
            k <= bytes.len(),
            text@ == hex_text(bytes@.take(k as int)),
        decreases bytes.len() - k,
    {
        let byte = bytes[k];
        text.append(hex_digit(byte / 16));
        text.append(hex_digit(byte % 16));
        proof {
            let grown = bytes@.take(k + 1);
            assert(grown.drop_last() =~= bytes@.take(k as int));
        }
        k += 1;
    }
    assert(bytes@.take(k as int) =~= bytes@);
    text
}

/// `first` followed by `second`.
pub fn joined(first: &str, second: &str) -> (text: String)
    ensures
        text@ == first@ + second@,
{
    let mut text = String::from_str(first);
    text.append(second);
    text
}

/// The value of a decimal digit.
pub open spec fn digit_value(c: char) -> int {
    if c == '1' {
        1
    } else if c == '2' {
        2
    } else if c == '3' {
        3
    } else if c == '4' {
        4
    } else if c == '5' {
        5
    } else if c == '6' {
        6
    } else if c == '7' {
        7
    } else if c == '8' {
        8
    } else if c == '9' {
        9
    } else {
        0
    }
}

/// The number that the decimal digits `text` read as.
pub open spec fn number_of(text: Seq<char>) -> int
    decreases text.len(),
{
    if text.len() == 0 {
        0
    } else {
        10 * number_of(text.drop_last()) + digit_value(text.last())
    }
}

/// Ten to the power `n`.
pub open spec fn pow10(n: nat) -> int
    decreases n,
{
    if n == 0 {
        1
    } else {
        10 * pow10((n - 1) as nat)
    }
}

/// `text` with zeros put before it until it is `width` characters long.
pub open spec fn zero_padded(text: Seq<char>, width: nat) -> Seq<char> {
    if text.len() >= width {
        text
    } else {
        Seq::new((width - text.len()) as nat, |i: int| '0') + text
    }
}

/// The decimal digits of a number read as that number.
pub proof fn digits_read_back(n: nat)
    ensures
        number_of(digits(n)) == n,
    decreases n,
{
    if n < 10 {
        assert(digits(n).drop_last() =~= Seq::<char>::empty());
        assert(number_of(digits(n).drop_last()) == 0);
    } else {
        digits_read_back(n / 10);
        assert(digits(n).drop_last() =~= digits(n / 10));
    }
}

/// Text put behind text reads as the first number, shifted by the length of
/// the second text, plus the second number.
pub proof fn joined_text_reads_shifted(first: Seq<char>, second: Seq<char>)
    ensures
        number_of(first + second) == number_of(first) * pow10(second.len()) + number_of(second),
    decreases second.len(),
{
    if second.len() == 0 {
        assert(first + second =~= first);
    } else {
        joined_text_reads_shifted(first, second.drop_last());
        assert((first + second).drop_last() =~= first + second.drop_last());
        assert((first + second).last() == second.last());
        let a = number_of(first);
        let p = pow10((second.len() - 1) as nat);
        assert(10 * (a * p) == a * (10 * p)) by (nonlinear_arith);
    }
}

/// Zeros in front do not change what a text reads as.
pub proof fn padding_reads_the_same(text: Seq<char>, width: nat)
    ensures
        number_of(zero_padded(text, width)) == number_of(text),
        zero_padded(text, width).len() == if text.len() >= width {
            text.len()
        } else {
            width
        },
{
    if text.len() < width {
        let zeros = Seq::new((width - text.len()) as nat, |i: int| '0');
        zeros_read_nothing(zeros);
        joined_text_reads_shifted(zeros, text);
        assert(0 * pow10(text.len()) == 0) by (nonlinear_arith);
    }
}

/// A text of zeros reads as zero.
proof fn zeros_read_nothing(zeros: Seq<char>)
    requires
        forall|i: int| 0 <= i < zeros.len() ==> zeros[i] == '0',
    ensures
        number_of(zeros) == 0,
    decreases zeros.len(),
{
    if zeros.len() > 0 {
        zeros_read_nothing(zeros.drop_last());
    }
}

/// A number has at most `width` digits exactly if it lies below ten to the
/// power `width`.
pub proof fn digits_fit_width(n: nat, width: nat)
    requires
        width >= 1,
    ensures
        digits(n).len() <= width <==> n < pow10(width),
        digits(n).len() >= 1,
    decreases n,
{
    assert(pow10(1) == 10) by {
        reveal_with_fuel(pow10, 2);
    }
    if n < 10 {
        pow10_grows(1, width);
    } else {
        if width == 1 {
            digits_fit_width(n / 10, 1);
        } else {
            digits_fit_width(n / 10, (width - 1) as nat);
        }
    }
}

/// Ten to a larger power is no smaller.
pub proof fn pow10_grows(small: nat, large: nat)
    requires
        small <= large,
    ensures
        0 < pow10(small) <= pow10(large),
    decreases large,
{
    if small < large {
        pow10_grows(small, (large - 1) as nat);
    } else if small > 0 {
        pow10_grows((small - 1) as nat, (large - 1) as nat);
    }
}

} // verus!
