//! What people are told: numbers, and what more than one side says.
use crate::outside::hex_digit;
use vstd::prelude::*;
use vstd::string::StringExecFns;

verus! {

/// A number in decimal digits, without leading zeros.
pub open spec fn decimal(n: nat) -> Seq<char>
    decreases n,
{
    if n < 10 {
        seq![hex_digit(n as int)]
    } else {
        decimal(n / 10).push(hex_digit((n % 10) as int))
    }
}

/// A byte in lower-case hexadecimal digits, without a leading zero.
pub open spec fn hex_byte(b: u8) -> Seq<char> {
    if b < 16 {
        seq![hex_digit(b as int)]
    } else {
        seq![hex_digit(b as int / 16), hex_digit(b as int % 16)]
    }
}

fn digit_text(d: u8) -> (r: &'static str)
    requires
        d < 16,
    ensures
        r@ == seq![hex_digit(d as int)],
{
    proof {
        reveal_strlit("0");
        reveal_strlit("1");
        reveal_strlit("2");
        reveal_strlit("3");
        reveal_strlit("4");
        reveal_strlit("5");
        reveal_strlit("6");
        reveal_strlit("7");
        reveal_strlit("8");
        reveal_strlit("9");
        reveal_strlit("a");
        reveal_strlit("b");
        reveal_strlit("c");
        reveal_strlit("d");
        reveal_strlit("e");
        reveal_strlit("f");
    }
    match d {
        0 => "0",
        1 => "1",
        2 => "2",
        3 => "3",
        4 => "4",
        5 => "5",
        6 => "6",
        7 => "7",
        8 => "8",
        9 => "9",
        10 => "a",
        11 => "b",
        12 => "c",
        13 => "d",
        14 => "e",
        _ => "f",
    }
}

/// Writes a number in decimal digits.
pub fn decimal_text(n: u64) -> (r: String)
    ensures
        r@ == decimal(n as nat),
    decreases n,
{
    let last: u8 = (n % 10) as u8;
    if n < 10 {
        digit_text(last).to_owned()
    } else {
        let mut r = decimal_text(n / 10);
        r.append(digit_text(last));
        r
    }
}

/// Writes a byte in lower-case hexadecimal digits.
pub fn hex_byte_text(b: u8) -> (r: String)
    ensures
        r@ == hex_byte(b),
{
    if b < 16 {
        digit_text(b).to_owned()
    } else {
        let mut r = digit_text(b / 16).to_owned();
        r.append(digit_text(b % 16));
        r
    }
}

/// How a peer of another version is told.
pub open spec fn version_mismatch(version: u8) -> Seq<char> {
    "Protocol version mismatched: "@ + decimal(version as nat)
}

/// Tells of a peer of another version.
pub fn version_mismatch_text(version: u8) -> (r: String)
    ensures
        r@ == version_mismatch(version),
{
    "Protocol version mismatched: ".to_owned().concat(decimal_text(version as u64).as_str())
}

/// The number that decimal digits stand for.
pub open spec fn decimal_value(digits: Seq<char>) -> int
    decreases digits.len(),
{
    if digits.len() == 0 {
        0
    } else {
        10 * decimal_value(digits.drop_last()) + (digits.last() as int - '0' as int)
    }
}

/// A number in decimal digits is made of digits only, has no leading zero
/// unless it is zero, and is read back.
pub proof fn decimal_is_read_back(n: nat)
    ensures
        decimal(n).len() > 0,
        decimal_value(decimal(n)) == n,
        forall|i: int| 0 <= i < decimal(n).len() ==> '0' <= #[trigger] decimal(n)[i] <= '9',
        n > 0 ==> decimal(n)[0] != '0',
    decreases n,
{
    let d = hex_digit((n % 10) as int);
    if n < 10 {
        assert(decimal(n).drop_last() =~= Seq::<char>::empty());
        assert(decimal_value(decimal(n).drop_last()) == 0);
    } else {
        decimal_is_read_back(n / 10);
        assert(decimal(n).drop_last() =~= decimal(n / 10));
    }
}

/// The number that a lower-case hexadecimal digit stands for.
pub open spec fn hex_value(digit: char) -> int {
    if digit <= '9' {
        digit as int - '0' as int
    } else {
        digit as int - 'a' as int + 10
    }
}

/// A byte in hexadecimal digits has one digit or two, and is read back.
pub proof fn hex_byte_is_read_back(b: u8)
    ensures
        b < 16 ==> hex_byte(b).len() == 1 && hex_value(hex_byte(b)[0]) == b,
        b >= 16 ==> hex_byte(b).len() == 2 && hex_value(hex_byte(b)[0]) * 16 + hex_value(
            hex_byte(b)[1],
        ) == b,
        forall|i: int|
            0 <= i < hex_byte(b).len() ==> '0' <= #[trigger] hex_byte(b)[i] <= '9' || 'a'
                <= hex_byte(b)[i] <= 'f',
{
}

/// Every other version is told in the same words, with its number at the end.
pub proof fn other_versions_are_told_alike(a: u8, b: u8)
    ensures
        version_mismatch(a).len() == 29 + decimal(a as nat).len(),
        version_mismatch(a).take(29) == version_mismatch(b).take(29),
        version_mismatch(a).skip(29) == decimal(a as nat),
{
    reveal_strlit("Protocol version mismatched: ");
    assert(version_mismatch(a).take(29) =~= version_mismatch(b).take(29));
    assert(version_mismatch(a).skip(29) =~= decimal(a as nat));
}

} // verus!
