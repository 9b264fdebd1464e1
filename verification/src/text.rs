//! Numbers and addresses written out as text.

use crate::identity::Ipv4Address;
use vstd::prelude::*;
use vstd::string::StringExecFns;

verus! {

/// A decimal digit as text.
pub open spec fn digit_text(digit: int) -> Seq<char> {
    if digit == 0 {
        "0"@
    } else if digit == 1 {
        "1"@
    } else if digit == 2 {
        "2"@
    } else if digit == 3 {
        "3"@
    } else if digit == 4 {
        "4"@
    } else if digit == 5 {
        "5"@
    } else if digit == 6 {
        "6"@
    } else if digit == 7 {
        "7"@
    } else if digit == 8 {
        "8"@
    } else {
        "9"@
    }
}

/// A number in decimal, without leading zeros.
pub open spec fn decimal_text(n: nat) -> Seq<char>
    decreases n,
{
    if n < 10 {
        digit_text(n as int)
    } else {
        decimal_text(n / 10) + digit_text((n % 10) as int)
    }
}

/// An address in dotted decimal.
pub open spec fn address_text(address: Ipv4Address) -> Seq<char> {
    decimal_text(address.0 as nat) + "."@ + decimal_text(address.1 as nat) + "."@ + decimal_text(
        address.2 as nat,
    ) + "."@ + decimal_text(address.3 as nat)
}

/// The text of a decimal digit.
fn digit_str(digit: u64) -> (text: &'static str)
    requires
        digit < 10,
    ensures
        text@ == digit_text(digit as int),
{
    if digit == 0 {
        "0"
    } else if digit == 1 {
        "1"
    } else if digit == 2 {
        "2"
    } else if digit == 3 {
        "3"
    } else if digit == 4 {
        "4"
    } else if digit == 5 {
        "5"
    } else if digit == 6 {
        "6"
    } else if digit == 7 {
        "7"
    } else if digit == 8 {
        "8"
    } else {
        "9"
    }
}

/// Appends `n` in decimal.
pub fn append_decimal(text: &mut String, n: u64)
    ensures
        final(text)@ == old(text)@ + decimal_text(n as nat),
    decreases n,
{
    if n >= 10 {
        append_decimal(text, n / 10);
    }
    text.append(digit_str(n % 10));
    assert(text@ =~= old(text)@ + decimal_text(n as nat));
}

/// Appends `address` in dotted decimal.
pub fn append_address(text: &mut String, address: &Ipv4Address)
    ensures
        final(text)@ == old(text)@ + address_text(*address),
{
    append_decimal(text, address.0 as u64);
    text.append(".");
    append_decimal(text, address.1 as u64);
    text.append(".");
    append_decimal(text, address.2 as u64);
    text.append(".");
    append_decimal(text, address.3 as u64);
    assert(text@ =~= old(text)@ + address_text(*address));
}

} // verus!
