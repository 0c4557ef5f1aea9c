use vstd::prelude::*;

verus! {

#[verifier::external_type_specification]
#[verifier::external_body]
pub struct ExParseIntError(std::num::ParseIntError);

#[verifier::external_type_specification]
#[verifier::external_body]
pub struct ExParseBoolError(std::str::ParseBoolError);

/// A type whose values can be read from text, with the text it accepts and the
/// value it reads stated as spec functions.
pub trait TextParsable: Sized {
    /// The failure reported for text that is not accepted.
    type Err;

    /// `text` is accepted.
    spec fn accepts(text: Seq<char>) -> bool;

    /// The value read from accepted `text`.
    spec fn value_of(text: Seq<char>) -> Self;

    fn parse_text(text: &str) -> (r: Result<Self, Self::Err>)
        ensures
            r is Ok <==> Self::accepts(text@),
            r is Ok ==> r->Ok_0 == Self::value_of(text@),
    ;
}

/// The text with one leading `+` removed, if it has one.
pub open spec fn unsigned_digits(text: Seq<char>) -> Seq<char> {
    if text.len() > 0 && text[0] == '+' {
        text.subrange(1, text.len() as int)
    } else {
        text
    }
}

/// Every character is an ASCII decimal digit.
pub open spec fn all_digits(d: Seq<char>) -> bool {
    forall|i: int| 0 <= i < d.len() ==> '0' <= #[trigger] d[i] <= '9'
}

/// The number that a string of decimal digits denotes.
pub open spec fn digits_value(d: Seq<char>) -> int
    decreases d.len(),
{
    if d.len() == 0 {
        0
    } else {
        digits_value(d.drop_last()) * 10 + (d.last() as int - '0' as int)
    }
}

/// Decimal text that names a `usize`: an optional `+`, then at least one
/// digit, with a value that fits.
pub open spec fn usize_text(text: Seq<char>) -> bool {
    let d = unsigned_digits(text);
    d.len() > 0 && all_digits(d) && digits_value(d) <= usize::MAX
}

/// Relies on `<usize as FromStr>::from_str`: it accepts an optional `+`
/// followed by one or more decimal digits whose value fits in `usize`, and
/// reads that value.
#[verifier::external_body]
fn parse_usize(text: &str) -> (r: Result<usize, std::num::ParseIntError>)
    ensures
        r is Ok <==> usize_text(text@),
        r is Ok ==> r->Ok_0 as int == digits_value(unsigned_digits(text@)),
{
    text.parse::<usize>()
}

/// Relies on `<bool as FromStr>::from_str`: it accepts exactly `true` and
/// `false`.
#[verifier::external_body]
fn parse_bool(text: &str) -> (r: Result<bool, std::str::ParseBoolError>)
    ensures
        r is Ok <==> (text@ == seq!['t', 'r', 'u', 'e'] || text@ == seq!['f', 'a', 'l', 's', 'e']),
        r is Ok ==> r->Ok_0 == (text@ == seq!['t', 'r', 'u', 'e']),
{
    text.parse::<bool>()
}

impl TextParsable for usize {
    type Err = std::num::ParseIntError;

    open spec fn accepts(text: Seq<char>) -> bool {
        usize_text(text)
    }

    open spec fn value_of(text: Seq<char>) -> usize {
        digits_value(unsigned_digits(text)) as usize
    }

    fn parse_text(text: &str) -> (r: Result<usize, std::num::ParseIntError>) {
        parse_usize(text)
    }
}

impl TextParsable for bool {
    type Err = std::str::ParseBoolError;

    open spec fn accepts(text: Seq<char>) -> bool {
        text == seq!['t', 'r', 'u', 'e'] || text == seq!['f', 'a', 'l', 's', 'e']
    }

    open spec fn value_of(text: Seq<char>) -> bool {
        text == seq!['t', 'r', 'u', 'e']
    }

    fn parse_text(text: &str) -> (r: Result<bool, std::str::ParseBoolError>) {
        parse_bool(text)
    }
}

} // verus!
