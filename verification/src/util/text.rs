//! Building the texts that decoded messages and error reports carry.

use vstd::prelude::*;

verus! {

/// The decimal digits of `n`, most significant first, without leading zeros.
pub open spec fn decimal_text(n: nat) -> Seq<char>
    decreases n,
{
    if n < 10 {
        seq![((48 + n) as u8) as char]
    } else {
        decimal_text(n / 10).push(((48 + n % 10) as u8) as char)
    }
}

/// Appends character `c` to `s`.
///
/// Calls `String::push`; the contract claims that the string grows by
/// exactly that character.
#[verifier::external_body]
pub(crate) fn push_char(s: &mut String, c: char)
    ensures
        final(s)@ == old(s)@.push(c),
{
    s.push(c);
}

/// Appends the decimal digits of `n`.
fn push_decimal(s: &mut String, n: u64)
    ensures
        final(s)@ == old(s)@ + decimal_text(n as nat),
    decreases n,
{
    if n >= 10 {
        push_decimal(s, n / 10);
    }
    let digit = (48 + n % 10) as u8;
    push_char(s, digit as char);
    proof {
        assert(final(s)@ =~= old(s)@ + decimal_text(n as nat));
    }
}

/// `text` followed by the decimal form of `n`.
pub(crate) fn text_with_number(text: &str, n: u64) -> (s: String)
    ensures
        s@ == text@ + decimal_text(n as nat),
{
    let mut s = String::from_str(text);
    push_decimal(&mut s, n);
    s
}

} // verus!
