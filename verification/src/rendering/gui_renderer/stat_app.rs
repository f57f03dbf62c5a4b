//! The statistics panel, and the grouping of large counts into thousands
//! with which it shows them.
use vstd::prelude::*;

verus! {

/// The statistics panel: simulation time, tick rate, entity count, camera
/// and configuration.
pub struct StatApp;

/// The character of the decimal digit `d`.
pub open spec fn digit_char(d: nat) -> char {
    (48 + d) as char
}

/// The decimal digits of `n`, without leading zeros.
pub open spec fn decimal(n: nat) -> Seq<char>
    decreases n,
{
    if n < 10 {
        seq![digit_char(n)]
    } else {
        decimal(n / 10).push(digit_char(n % 10))
    }
}

/// The three decimal digits of `n`, below 1000, with leading zeros.
pub open spec fn three_digits(n: nat) -> Seq<char> {
    seq![digit_char(n / 100), digit_char((n / 10) % 10), digit_char(n % 10)]
}

/// `n` in decimal with its digits in groups of three from the right, the
/// groups separated by commas: `1,234,567`.
pub open spec fn grouped_thousands(n: nat) -> Seq<char>
    decreases n,
{
    if n < 1000 {
        decimal(n)
    } else {
        grouped_thousands(n / 1000) + seq![','] + three_digits(n % 1000)
    }
}

/// `num_format`'s `to_formatted_string` with the `en` locale, whose separator
/// is `,` and whose grouping is the standard one, in groups of three.
#[verifier::external_body]
fn format_en(n: u64) -> (s: String)
    ensures
        s@ == grouped_thousands(n as nat),
{
    num_format::ToFormattedString::to_formatted_string(&n, &num_format::Locale::en)
}

/// A count as the panel shows it: in decimal, grouped in thousands by commas.
pub fn count_label(n: u64) -> (s: String)
    ensures
        s@ == grouped_thousands(n as nat),
{
    format_en(n)
}

} // verus!
