//! Decimal numerals.
use vstd::prelude::*;

verus! {

/// The numeral of a single digit.
pub open spec fn digit_char(d: nat) -> char {
    seq!['0', '1', '2', '3', '4', '5', '6', '7', '8', '9'][d as int]
}

/// The decimal numeral of `n`, without sign or leading zeros.
pub open spec fn decimal(n: nat) -> Seq<char>
    decreases n,
{
    if n < 10 {
        seq![digit_char(n)]
    } else {
        decimal(n / 10).push(digit_char(n % 10))
    }
}

/// Relies on itoa's `Buffer::format`: the decimal numeral of an unsigned
/// integer, without sign or leading zeros.
#[verifier::external_body]
pub(crate) fn format_decimal(n: usize) -> (r: String)
    ensures
        r@ == decimal(n as nat),
{
    let mut buffer = itoa::Buffer::new();
    buffer.format(n).to_owned()
}

} // verus!
