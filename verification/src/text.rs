//! Numbers as text, for the names of artifacts.

use vstd::prelude::*;
use vstd::string::{StrSliceExecFns, StringExecFns};

verus! {

/// The character that writes the digit `d`, lower case above nine.
pub open spec fn digit_char(d: int) -> char {
    if d == 0 {
        '0'
    } else if d == 1 {
        '1'
    } else if d == 2 {
        '2'
    } else if d == 3 {
        '3'
    } else if d == 4 {
        '4'
    } else if d == 5 {
        '5'
    } else if d == 6 {
        '6'
    } else if d == 7 {
        '7'
    } else if d == 8 {
        '8'
    } else if d == 9 {
        '9'
    } else if d == 10 {
        'a'
    } else if d == 11 {
        'b'
    } else if d == 12 {
        'c'
    } else if d == 13 {
        'd'
    } else if d == 14 {
        'e'
    } else {
        'f'
    }
}

/// `n` in decimal, most significant digit first, without leading zeros;
/// zero is written as one digit.
pub open spec fn decimal(n: nat) -> Seq<char>
    decreases n,
{
    if n < 10 {
        seq![digit_char(n as int)]
    } else {
        decimal(n / 10).push(digit_char((n % 10) as int))
    }
}

/// `n` in hexadecimal, most significant digit first, without leading
/// zeros; zero is written as one digit.
pub open spec fn hexadecimal(n: nat) -> Seq<char>
    decreases n,
{
    if n < 16 {
        seq![digit_char(n as int)]
    } else {
        hexadecimal(n / 16).push(digit_char((n % 16) as int))
    }
}

/// `n` in hexadecimal behind `0x`: the label of an opcode without a name.
pub open spec fn hex_label(n: nat) -> Seq<char> {
    "0x"@ + hexadecimal(n)
}

/// The one-character text of the digit `d`.
pub fn digit_str(d: u64) -> (text: &'static str)
    requires
        d < 16,
    ensures
        text@ == seq![digit_char(d as int)],
{
    proof {
        reveal_strlit("0");
        reveal_strlit("1");
        reveal_strlit("2");
        reveal_strlit("3");
        reveal_strlit("4");
        reveal_strlit("5");
        reveal_strlit("6");
        reveal_strlit("7");
        reveal_strlit("8");
        reveal_strlit("9");
        reveal_strlit("a");
        reveal_strlit("b");
        reveal_strlit("c");
        reveal_strlit("d");
        reveal_strlit("e");
        reveal_strlit("f");
    }
    let text = match d {
        0 => "0",
        1 => "1",
        2 => "2",
        3 => "3",
        4 => "4",
        5 => "5",
        6 => "6",
        7 => "7",
        8 => "8",
        9 => "9",
        10 => "a",
        11 => "b",
        12 => "c",
        13 => "d",
        14 => "e",
        _ => "f",
    };
    assert(text@ =~= seq![digit_char(d as int)]);
    text
}

/// Appends `n` in decimal to `out`.
pub fn push_decimal(out: &mut String, n: u64)
    ensures
        final(out)@ == old(out)@ + decimal(n as nat),
    decreases n,
{
    if n >= 10 {
        push_decimal(out, n / 10);
    }
    out.append(digit_str(n % 10));
    assert(out@ =~= old(out)@ + decimal(n as nat));
}

/// Appends `n` in hexadecimal to `out`.
pub fn push_hexadecimal(out: &mut String, n: u64)
    ensures
        final(out)@ == old(out)@ + hexadecimal(n as nat),
    decreases n,
{
    if n >= 16 {
        push_hexadecimal(out, n / 16);
    }
    out.append(digit_str(n % 16));
    assert(out@ =~= old(out)@ + hexadecimal(n as nat));
}

/// Appends the label of an unnamed opcode to `out`.
pub fn push_hex_label(out: &mut String, opcode: u16)
    ensures
        final(out)@ == old(out)@ + hex_label(opcode as nat),
{
    out.append("0x");
    push_hexadecimal(out, opcode as u64);
    assert(out@ =~= old(out)@ + hex_label(opcode as nat));
}

/// The value of the hexadecimal digit `c`, in either case.
pub open spec fn hex_digit(c: char) -> Option<nat> {
    if c == '0' {
        Some(0)
    } else if c == '1' {
        Some(1)
    } else if c == '2' {
        Some(2)
    } else if c == '3' {
        Some(3)
    } else if c == '4' {
        Some(4)
    } else if c == '5' {
        Some(5)
    } else if c == '6' {
        Some(6)
    } else if c == '7' {
        Some(7)
    } else if c == '8' {
        Some(8)
    } else if c == '9' {
        Some(9)
    } else if c == 'a' || c == 'A' {
        Some(10)
    } else if c == 'b' || c == 'B' {
        Some(11)
    } else if c == 'c' || c == 'C' {
        Some(12)
    } else if c == 'd' || c == 'D' {
        Some(13)
    } else if c == 'e' || c == 'E' {
        Some(14)
    } else if c == 'f' || c == 'F' {
        Some(15)
    } else {
        None
    }
}

/// The number that the hexadecimal digits `s` write, most significant digit
/// first. Leading zeros count for nothing; no digits, or anything that is
/// no digit, write no number.
pub open spec fn hex_number(s: Seq<char>) -> Option<nat>
    decreases s.len(),
{
    if s.len() == 0 {
        None
    } else {
        match hex_digit(s.last()) {
            None => None,
            Some(d) => if s.len() == 1 {
                Some(d)
            } else {
                match hex_number(s.drop_last()) {
                    None => None,
                    Some(higher) => Some(16 * higher + d),
                }
            },
        }
    }
}

/// The opcode that `s` writes: `0x`, then a sign or none, then hexadecimal
/// digits whose number, with the sign, is a 32-bit signed integer.
pub open spec fn hex_opcode(s: Seq<char>) -> Option<i32> {
    if s.len() < 2 || s[0] != '0' || s[1] != 'x' {
        None
    } else {
        let signed = s.len() > 2 && (s[2] == '-' || s[2] == '+');
        let negative = s.len() > 2 && s[2] == '-';
        let digits = s.subrange(if signed { 3int } else { 2int }, s.len() as int);
        match hex_number(digits) {
            None => None,
            Some(n) => {
                let value = if negative { -(n as int) } else { n as int };
                if i32::MIN <= value <= i32::MAX {
                    Some(value as i32)
                } else {
                    None
                }
            },
        }
    }
}

/// Digits that write a number write one with every digit cut off at the
/// end too, and no larger one.
pub proof fn lemma_hex_prefix(s: Seq<char>, k: int)
    requires
        1 <= k <= s.len(),
        hex_number(s) is Some,
    ensures
        hex_number(s.subrange(0, k)) is Some,
        hex_number(s.subrange(0, k))->Some_0 <= hex_number(s)->Some_0,
    decreases s.len(),
{
    if k < s.len() {
        lemma_hex_prefix(s.drop_last(), k);
        assert(s.drop_last().subrange(0, k) =~= s.subrange(0, k));
    } else {
        assert(s.subrange(0, k) =~= s);
    }
}

/// The value of a hexadecimal digit.
pub fn hex_digit_value(c: char) -> (r: Option<u64>)
    ensures
        match r {
            Some(d) => hex_digit(c) == Some(d as nat) && d < 16,
            None => hex_digit(c) is None,
        },
{
    match c {
        '0' => Some(0),
        '1' => Some(1),
        '2' => Some(2),
        '3' => Some(3),
        '4' => Some(4),
        '5' => Some(5),
        '6' => Some(6),
        '7' => Some(7),
        '8' => Some(8),
        '9' => Some(9),
        'a' | 'A' => Some(10),
        'b' | 'B' => Some(11),
        'c' | 'C' => Some(12),
        'd' | 'D' => Some(13),
        'e' | 'E' => Some(14),
        'f' | 'F' => Some(15),
        _ => None,
    }
}

/// Reads an opcode written as `0x` and a hexadecimal 32-bit signed integer,
/// such as `0x142`. Text without the `0x` in front, without digits, with
/// anything else in it, or with a number out of range is no opcode.
pub fn parse_hex_opcode(text: &str) -> (r: Option<i32>)
    ensures
        r == hex_opcode(text@),
{
    let n = text.unicode_len();
    if n < 2 || text.get_char(0) != '0' || text.get_char(1) != 'x' {
        return None;
    }
    let mut negative = false;
    let mut first: usize = 2;
    if n > 2 {
        let sign = text.get_char(2);
        if sign == '-' {
            negative = true;
            first = 3;
        } else if sign == '+' {
            first = 3;
        }
    }
    let ghost digits = text@.subrange(first as int, n as int);
    let mut acc: u64 = 0;
    let mut i: usize = first;
    while i < n
        invariant
            2 <= first <= i <= n,
            n == text@.len(),
            text@[0] == '0',
            text@[1] == 'x',
            first == if n > 2 && (text@[2] == '-' || text@[2] == '+') { 3int } else { 2int },
            negative == (n > 2 && text@[2] == '-'),
            digits == text@.subrange(first as int, n as int),
            acc <= 0x8000_0000,
            i == first ==> acc == 0,
            i > first ==> hex_number(digits.subrange(0, i - first)) == Some(acc as nat),
        decreases n - i,
    {
        let ghost read = digits.subrange(0, i - first + 1);
        proof {
            assert(read.last() == text@[i as int]);
            assert(read.drop_last() =~= digits.subrange(0, i - first));
        }
        match hex_digit_value(text.get_char(i)) {
            None => {
                proof {
                    if hex_number(digits) is Some {
                        lemma_hex_prefix(digits, i - first + 1);
                    }
                }
                return None;
            },
            Some(d) => {
                acc = acc * 16 + d;
                assert(hex_number(read) == Some(acc as nat));
                if acc > 0x8000_0000 {
                    proof {
                        if hex_number(digits) is Some {
                            lemma_hex_prefix(digits, i - first + 1);
                        }
                    }
                    return None;
                }
            },
        }
        i = i + 1;
    }
    if i == first {
        return None;
    }
    assert(digits.subrange(0, i - first) =~= digits);
    if negative {
        Some((0 - acc as i64) as i32)
    } else if acc > 0x7fff_ffff {
        None
    } else {
        Some(acc as i32)
    }
}

} // verus!
