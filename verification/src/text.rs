//! Building text: the calls into `String` that carry no contract of their own.

use std::string::FromUtf8Error;
use vstd::prelude::*;
use vstd::utf8::{decode_utf8, valid_utf8};

verus! {

/// The error of `String::from_utf8`, carried through as it comes.
#[verifier::external_type_specification]
#[verifier::external_body]
pub struct ExFromUtf8Error(FromUtf8Error);

/// Calls `String::from_utf8`. Trusted: the call succeeds exactly when the
/// bytes are valid UTF-8, and the text it then returns is the one that the
/// bytes encode.
#[verifier::external_body]
pub(crate) fn string_from_utf8(bytes: Vec<u8>) -> (made: Result<String, FromUtf8Error>)
    ensures
        match made {
            Ok(text) => valid_utf8(bytes@) && text@ == decode_utf8(bytes@),
            Err(_) => !valid_utf8(bytes@),
        },
{
    String::from_utf8(bytes)
}

/// Calls `String::push`. Trusted: the text afterwards is the text before with
/// `c` appended at its end.
#[verifier::external_body]
pub(crate) fn push_char(text: &mut String, c: char)
    ensures
        final(text)@ == old(text)@.push(c),
{
    text.push(c);
}

/// The character of the decimal digit `d`.
pub open spec fn digit(d: nat) -> char
    recommends
        d < 10,
{
    (48 + d) as char
}

/// The decimal numeral of `n`: its digits, most significant first, without
/// leading zeros.
pub open spec fn decimal(n: nat) -> Seq<char>
    decreases n,
{
    if n < 10 {
        seq![digit(n)]
    } else {
        decimal(n / 10).push(digit(n % 10))
    }
}

/// Appends the decimal numeral of `n` to `text`.
pub(crate) fn push_decimal(text: &mut String, n: u64)
    ensures
        final(text)@ == old(text)@ + decimal(n as nat),
{
    let mut low: Vec<char> = Vec::new();
    let mut rest = n;
    while rest >= 10
        invariant
            decimal(n as nat) == decimal(rest as nat) + Seq::new(
                low@.len(),
                |i: int| low@[low@.len() - 1 - i],
            ),
        decreases rest,
    {
        let ghost before = low@;
        low.push((48 + (rest % 10) as u8) as char);
        rest = rest / 10;
        proof {
            let turned = Seq::new(before.len(), |i: int| before[before.len() - 1 - i]);
            let turned_now = Seq::new(low@.len(), |i: int| low@[low@.len() - 1 - i]);
            assert(decimal(rest as nat).push(low@[low@.len() - 1]) + turned =~= decimal(
                rest as nat,
            ) + turned_now);
        }
    }
    push_char(text, (48 + rest as u8) as char);
    let mut i = low.len();
    while i > 0
        invariant
            i <= low@.len(),
            text@ == old(text)@ + decimal(rest as nat) + Seq::new(
                (low@.len() - i) as nat,
                |j: int| low@[low@.len() - 1 - j],
            ),
            decimal(n as nat) == decimal(rest as nat) + Seq::new(
                low@.len(),
                |j: int| low@[low@.len() - 1 - j],
            ),
        decreases i,
    {
        i -= 1;
        push_char(text, low[i]);
    }
}

} // verus!
