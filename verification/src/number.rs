//! Decimal text of the small numbers of an entry: how a number is written
//! into a column, and how a column is read back as a number.

use vstd::prelude::*;
use vstd::std_specs::iter::IteratorSpec;

verus! {

/// The ten decimal digits.
pub open spec fn is_digit(c: char) -> bool {
    '0' <= c && c <= '9'
}

/// The number that a decimal digit stands for.
pub open spec fn digit_value(c: char) -> nat
    recommends
        is_digit(c),
{
    (c as u32 - '0' as u32) as nat
}

/// The decimal digit that stands for a number below ten.
pub open spec fn digit_char(d: nat) -> char
    recommends
        d < 10,
{
    if d == 0 {
        '0'
    } else if d == 1 {
        '1'
    } else if d == 2 {
        '2'
    } else if d == 3 {
        '3'
    } else if d == 4 {
        '4'
    } else if d == 5 {
        '5'
    } else if d == 6 {
        '6'
    } else if d == 7 {
        '7'
    } else if d == 8 {
        '8'
    } else {
        '9'
    }
}

/// A number in decimal, most significant digit first, without sign or
/// leading zeros; zero is the single digit `0`.
pub open spec fn decimal(n: nat) -> Seq<char>
    decreases n,
{
    if n < 10 {
        seq![digit_char(n)]
    } else {
        decimal(n / 10).push(digit_char(n % 10))
    }
}

/// Every character is a decimal digit.
pub open spec fn all_digits(s: Seq<char>) -> bool {
    forall|i: int| 0 <= i < s.len() ==> is_digit(#[trigger] s[i])
}

/// The number that a run of decimal digits stands for; leading zeros count
/// for nothing, and the empty run stands for zero.
pub open spec fn digits_value(s: Seq<char>) -> nat
    decreases s.len(),
{
    if s.len() == 0 {
        0
    } else {
        digits_value(s.drop_last()) * 10 + digit_value(s.last())
    }
}

/// The text without the one `+` that may stand in front of a number.
pub open spec fn unsigned_part(s: Seq<char>) -> Seq<char> {
    if s.len() > 0 && s[0] == '+' {
        s.subrange(1, s.len() as int)
    } else {
        s
    }
}

/// The value of a column that holds a number: an optional `+`, then one or
/// more decimal digits, worth at most 255. Anything else (no digit at all, a
/// space, a minus sign, a larger number) is no number.
pub open spec fn parse_u8(s: Seq<char>) -> Option<u8> {
    let digits = unsigned_part(s);
    if digits.len() > 0 && all_digits(digits) && digits_value(digits) <= 255 {
        Some(digits_value(digits) as u8)
    } else {
        None
    }
}

/// The number that an entry takes from a column: what the column holds, or 1
/// where it holds no number.
pub open spec fn number_or_one(s: Seq<char>) -> u8 {
    match parse_u8(s) {
        Some(n) => n,
        None => 1,
    }
}

/// A run of digits is worth at least as much as any of its prefixes.
pub proof fn lemma_digits_value_prefix(s: Seq<char>, k: int)
    requires
        0 <= k <= s.len(),
    ensures
        digits_value(s.subrange(0, k)) <= digits_value(s),
    decreases s.len() - k,
{
    if k == s.len() {
        assert(s.subrange(0, k) == s);
    } else {
        lemma_digits_value_prefix(s, k + 1);
        let longer = s.subrange(0, k + 1);
        assert(longer.drop_last() == s.subrange(0, k));
    }
}

/// Reading back what `decimal` wrote gives the number again.
pub proof fn lemma_decimal_value(n: nat)
    ensures
        decimal(n).len() > 0,
        all_digits(decimal(n)),
        decimal(n)[0] != '+',
        digits_value(decimal(n)) == n,
    decreases n,
{
    if n < 10 {
        let s = decimal(n);
        assert(s.drop_last().len() == 0);
        assert(digits_value(s.drop_last()) == 0);
    } else {
        lemma_decimal_value(n / 10);
        let front = decimal(n / 10);
        let s = decimal(n);
        assert(s.drop_last() == front);
        assert(s.last() == digit_char(n % 10));
    }
}

/// A number below 256, written by `decimal` and read by `parse_u8`, comes
/// back unchanged.
pub proof fn lemma_parse_decimal(n: u8)
    ensures
        parse_u8(decimal(n as nat)) == Some(n),
{
    lemma_decimal_value(n as nat);
}

/// The one-character text of a digit.
fn digit_text(d: u8) -> (r: &'static str)
    requires
        d < 10,
    ensures
        r@ == seq![digit_char(d as nat)],
{
    proof {
        reveal_strlit("0");
        reveal_strlit("1");
        reveal_strlit("2");
        reveal_strlit("3");
        reveal_strlit("4");
        reveal_strlit("5");
        reveal_strlit("6");
        reveal_strlit("7");
        reveal_strlit("8");
        reveal_strlit("9");
    }
    let r = if d == 0 {
        "0"
    } else if d == 1 {
        "1"
    } else if d == 2 {
        "2"
    } else if d == 3 {
        "3"
    } else if d == 4 {
        "4"
    } else if d == 5 {
        "5"
    } else if d == 6 {
        "6"
    } else if d == 7 {
        "7"
    } else if d == 8 {
        "8"
    } else {
        "9"
    };
    assert(r@ =~= seq![digit_char(d as nat)]);
    r
}

/// Writes a number in decimal.
pub fn decimal_text(n: u8) -> (r: String)
    ensures
        r@ == decimal(n as nat),
{
    let mut out = String::new();
    if n >= 100 {
        out.append(digit_text(n / 100));
    }
    if n >= 10 {
        out.append(digit_text((n / 10) % 10));
    }
    out.append(digit_text(n % 10));
    proof {
        reveal_with_fuel(decimal, 3);
        assert(out@ =~= decimal(n as nat));
    }
    out
}

/// Reads a column as a number.
pub fn parse_number(s: &str) -> (r: Option<u8>)
    ensures
        r == parse_u8(s@),
{
    let mut chars = s.chars();
    let ghost text = s@;
    let ghost mut read: int = 0;
    let ghost mut start: int = 0;
    let mut at_front = true;
    let mut any_digit = false;
    let mut value: u16 = 0;
    loop
        invariant
            text == s@,
            0 <= start <= read <= text.len(),
            chars.remaining() == text.subrange(read, text.len() as int),
            at_front ==> read == 0,
            start == 1 ==> text.len() > 0 && text[0] == '+',
            start == 0 || start == 1,
            !at_front && start == 0 ==> text.len() > 0 && text[0] != '+',
            any_digit <==> read > start,
            all_digits(text.subrange(start, read)),
            value == digits_value(text.subrange(start, read)),
            value <= 255,
        ensures
            read == text.len(),
        decreases text.len() - read,
    {
        match chars.next() {
            None => {
                assert(text.subrange(read, text.len() as int).len() == 0);
                break ;
            },
            Some(c) => {
                assert(c == text[read]);
                if at_front && c == '+' {
                    at_front = false;
                    proof {
                        read = 1;
                        start = 1;
                        assert(text.subrange(1, 1).len() == 0);
                    }
                } else {
                    at_front = false;
                    let ghost before = text.subrange(start, read);
                    let ghost after = text.subrange(start, read + 1);
                    proof {
                        assert(after.drop_last() == before);
                        assert(after.last() == c);
                    }
                    if !(c >= '0' && c <= '9') {
                        proof {
                            let digits = unsigned_part(text);
                            assert(digits == text.subrange(start, text.len() as int));
                            assert(digits[read - start] == c);
                        }
                        return None;
                    }
                    let d: u16 = (c as u32 - '0' as u32) as u16;
                    value = value * 10 + d;
                    if value > 255 {
                        proof {
                            let digits = unsigned_part(text);
                            assert(digits == text.subrange(start, text.len() as int));
                            assert(digits.subrange(0, read + 1 - start) == after);
                            lemma_digits_value_prefix(digits, read + 1 - start);
                        }
                        return None;
                    }
                    any_digit = true;
                    proof {
                        read = read + 1;
                    }
                }
            },
        }
    }
    proof {
        assert(unsigned_part(text) == text.subrange(start, text.len() as int));
    }
    if any_digit {
        Some(value as u8)
    } else {
        None
    }
}

} // verus!
