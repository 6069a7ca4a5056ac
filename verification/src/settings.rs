//! Settings that come from environment variables.

use vstd::prelude::*;

use crate::text::{number_of, parse_decimal};

verus! {

/// The text of a variable, or its default.
pub open spec fn setting(value: Option<String>, default: Seq<char>) -> Seq<char> {
    match value {
        Some(text) => text@,
        None => default,
    }
}

/// The number that a variable, or else its default, denotes, if it is one of at
/// most `max`.
pub open spec fn number_setting(value: Option<String>, default: nat, max: nat) -> Option<nat> {
    match value {
        None => Some(default),
        Some(text) => match number_of(text@) {
            Some(n) => if n <= max { Some(n) } else { None },
            None => None,
        },
    }
}

/// The text of a variable, or its default.
pub fn text_or(value: Option<String>, default: &str) -> (text: String)
    ensures
        text@ == setting(value, default@),
{
    match value {
        Some(text) => text,
        None => default.to_string(),
    }
}

/// The number of a variable, or its default; `None` if the text is no number of
/// at most `max`.
pub fn number_or(value: &Option<String>, default: u64, max: u64) -> (n: Option<u64>)
    requires
        default <= max,
    ensures
        match number_setting(*value, default as nat, max as nat) {
            Some(v) => n == Some(v as u64) && v <= max,
            None => n is None,
        },
{
    match value {
        Some(text) => parse_decimal(text.as_str(), max),
        None => Some(default),
    }
}

/// A variable that is set decides; one that is not leaves the default. A number is taken
/// exactly if its text denotes one that is not above the limit.
pub proof fn law_set_variable_decides(text: String, default: Seq<char>, number: nat, max: nat)
    ensures
        setting(Some(text), default) == text@,
        setting(None, default) == default,
        number_setting(None, number, max) == Some(number),
        number_setting(Some(text), number, max) is Some <==> number_of(text@) is Some && number_of(text@)->0 <= max,
        number_setting(Some(text), number, max) is Some ==> number_setting(Some(text), number, max) == number_of(text@),
{
}

} // verus!
