//! Rules that the value of an input must meet, each with the message that
//! it gives when the value fails it.

use crate::chars::{
    decimal, is_alphanumeric_char, is_numeric_char, is_whitespace_char, push_decimal, to_chars,
};
use vstd::prelude::*;

verus! {

/// One rule of a validator chain.
#[derive(Clone, Copy, Debug, PartialEq, Eq, Structural)]
pub enum Validator {
    /// The value holds something besides white space.
    Required,
    /// The value has at least this many characters.
    MinLength(usize),
    /// The value has at most this many characters.
    MaxLength(usize),
    /// The value has at least the first and at most the second number of
    /// characters.
    LengthRange(usize, usize),
    /// The value holds an `@` and a dot.
    Email,
    /// The value holds nothing but numeric characters.
    Numeric,
    /// The value holds nothing but letters and numeric characters.
    Alphanumeric,
    /// Any value passes.
    Accept,
}

/// Whether every character of `s` is white space.
pub open spec fn all_whitespace(s: Seq<char>) -> bool {
    forall|i: int| 0 <= i < s.len() ==> is_whitespace_char(#[trigger] s[i])
}

/// Whether every character of `s` is numeric.
pub open spec fn all_numeric(s: Seq<char>) -> bool {
    forall|i: int| 0 <= i < s.len() ==> is_numeric_char(#[trigger] s[i])
}

/// Whether every character of `s` is a letter or numeric.
pub open spec fn all_alphanumeric(s: Seq<char>) -> bool {
    forall|i: int| 0 <= i < s.len() ==> is_alphanumeric_char(#[trigger] s[i])
}

/// The message for a value that is too short.
pub open spec fn too_short(min: usize) -> Seq<char> {
    "Minimum "@ + decimal(min as nat) + " characters required"@
}

/// The message for a value that is too long.
pub open spec fn too_long(max: usize) -> Seq<char> {
    "Maximum "@ + decimal(max as nat) + " characters allowed"@
}

impl Validator {
    /// What the rule says of a value: `None` where it passes, else the
    /// message.
    pub open spec fn verdict(&self, value: Seq<char>) -> Option<Seq<char>> {
        match self {
            Validator::Required => if all_whitespace(value) {
                Some("This field is required"@)
            } else {
                None
            },
            Validator::MinLength(min) => if value.len() < *min {
                Some(too_short(*min))
            } else {
                None
            },
            Validator::MaxLength(max) => if value.len() > *max {
                Some(too_long(*max))
            } else {
                None
            },
            Validator::LengthRange(min, max) => if value.len() < *min {
                Some(too_short(*min))
            } else if value.len() > *max {
                Some(too_long(*max))
            } else {
                None
            },
            Validator::Email => if value.contains('@') && value.contains('.') {
                None
            } else {
                Some("Invalid email address"@)
            },
            Validator::Numeric => if all_numeric(value) {
                None
            } else {
                Some("Only numbers allowed"@)
            },
            Validator::Alphanumeric => if all_alphanumeric(value) {
                None
            } else {
                Some("Only letters and numbers allowed"@)
            },
            Validator::Accept => None,
        }
    }

    /// Holds the value against the rule.
    pub fn check(&self, value: &str) -> (r: Result<(), String>)
        ensures
            r is Ok <==> self.verdict(value@) is None,
            r matches Err(message) ==> self.verdict(value@) == Some(message@),
    {
        match self {
            Validator::Required => {
                if every_whitespace(value) {
                    Err(String::from_str("This field is required"))
                } else {
                    Ok(())
                }
            },
            Validator::MinLength(min) => {
                if value.unicode_len() < *min {
                    Err(too_short_message(*min))
                } else {
                    Ok(())
                }
            },
            Validator::MaxLength(max) => {
                if value.unicode_len() > *max {
                    Err(too_long_message(*max))
                } else {
                    Ok(())
                }
            },
            Validator::LengthRange(min, max) => {
                let len = value.unicode_len();
                if len < *min {
                    Err(too_short_message(*min))
                } else if len > *max {
                    Err(too_long_message(*max))
                } else {
                    Ok(())
                }
            },
            Validator::Email => {
                if holds(value, '@') && holds(value, '.') {
                    Ok(())
                } else {
                    Err(String::from_str("Invalid email address"))
                }
            },
            Validator::Numeric => {
                if every_numeric(value) {
                    Ok(())
                } else {
                    Err(String::from_str("Only numbers allowed"))
                }
            },
            Validator::Alphanumeric => {
                if every_alphanumeric(value) {
                    Ok(())
                } else {
                    Err(String::from_str("Only letters and numbers allowed"))
                }
            },
            Validator::Accept => Ok(()),
        }
    }
}

fn too_short_message(min: usize) -> (m: String)
    ensures
        m@ == too_short(min),
{
    let mut m = String::from_str("Minimum ");
    push_decimal(&mut m, min);
    m.append(" characters required");
    m
}

fn too_long_message(max: usize) -> (m: String)
    ensures
        m@ == too_long(max),
{
    let mut m = String::from_str("Maximum ");
    push_decimal(&mut m, max);
    m.append(" characters allowed");
    m
}

fn every_whitespace(value: &str) -> (r: bool)
    ensures
        r == all_whitespace(value@),
{
    let v = to_chars(value);
    let mut i: usize = 0;
    while i < v.len()
        invariant
            i <= v.len(),
            v@ == value@,
            forall|j: int| 0 <= j < i ==> is_whitespace_char(#[trigger] value@[j]),
        decreases v.len() - i,
    {
        if !v[i].is_whitespace() {
            return false;
        }
        i += 1;
    }
    true
}

fn every_numeric(value: &str) -> (r: bool)
    ensures
        r == all_numeric(value@),
{
    let v = to_chars(value);
    let mut i: usize = 0;
    while i < v.len()
        invariant
            i <= v.len(),
            v@ == value@,
            forall|j: int| 0 <= j < i ==> is_numeric_char(#[trigger] value@[j]),
        decreases v.len() - i,
    {
        if !v[i].is_numeric() {
            return false;
        }
        i += 1;
    }
    true
}

fn every_alphanumeric(value: &str) -> (r: bool)
    ensures
        r == all_alphanumeric(value@),
{
    let v = to_chars(value);
    let mut i: usize = 0;
    while i < v.len()
        invariant
            i <= v.len(),
            v@ == value@,
            forall|j: int| 0 <= j < i ==> is_alphanumeric_char(#[trigger] value@[j]),
        decreases v.len() - i,
    {
        if !v[i].is_alphanumeric() {
            return false;
        }
        i += 1;
    }
    true
}

fn holds(value: &str, wanted: char) -> (r: bool)
    ensures
        r == value@.contains(wanted),
{
    let v = to_chars(value);
    let mut i: usize = 0;
    while i < v.len()
        invariant
            i <= v.len(),
            v@ == value@,
            forall|j: int| 0 <= j < i ==> value@[j] != wanted,
        decreases v.len() - i,
    {
        if v[i] == wanted {
            return true;
        }
        i += 1;
    }
    false
}

/// What a chain of rules says of a value: the message of the first rule
/// that the value fails, or `None` where it passes all of them.
pub open spec fn first_failure(rules: Seq<Validator>, value: Seq<char>) -> Option<Seq<char>>
    decreases rules.len(),
{
    if rules.len() == 0 {
        None
    } else if rules[0].verdict(value) is Some {
        rules[0].verdict(value)
    } else {
        first_failure(rules.drop_first(), value)
    }
}

/// Runs the rules in order and stops at the first that fails.
pub fn run_chain(rules: &Vec<Validator>, value: &str) -> (r: Result<(), String>)
    ensures
        r is Ok <==> first_failure(rules@, value@) is None,
        r matches Err(message) ==> first_failure(rules@, value@) == Some(message@),
{
    let mut i: usize = 0;
    assert(rules@.skip(0) =~= rules@);
    while i < rules.len()
        invariant
            i <= rules.len(),
            first_failure(rules@, value@) == first_failure(rules@.skip(i as int), value@),
        decreases rules.len() - i,
    {
        proof {
            assert(rules@.skip(i as int)[0] == rules@[i as int]);
            assert(rules@.skip(i as int).drop_first() =~= rules@.skip(i + 1));
        }
        match rules[i].check(value) {
            Ok(()) => {},
            Err(message) => {
                return Err(message);
            },
        }
        i += 1;
    }
    Ok(())
}

/// A chain passes exactly the values that every rule of it passes.
pub proof fn lemma_chain_passes(rules: Seq<Validator>, value: Seq<char>)
    ensures
        first_failure(rules, value) is None <==> forall|i: int|
            0 <= i < rules.len() ==> (#[trigger] rules[i]).verdict(value) is None,
    decreases rules.len(),
{
    if rules.len() > 0 {
        lemma_chain_passes(rules.drop_first(), value);
        if first_failure(rules, value) is None {
            assert forall|i: int| 0 <= i < rules.len() implies (#[trigger] rules[i]).verdict(
                value,
            ) is None by {
                if i > 0 {
                    assert(rules.drop_first()[i - 1] == rules[i]);
                }
            }
        } else if rules[0].verdict(value) is None {
            let j = choose|j: int|
                0 <= j < rules.drop_first().len() && !((#[trigger] rules.drop_first()[j]).verdict(
                    value,
                ) is None);
            assert(rules[j + 1] == rules.drop_first()[j]);
        }
    }
}

/// The value must hold something besides white space.
pub fn required() -> (v: Validator)
    ensures
        v == Validator::Required,
{
    Validator::Required
}

/// The value must have at least `n` characters.
pub fn min_length(n: usize) -> (v: Validator)
    ensures
        v == Validator::MinLength(n),
{
    Validator::MinLength(n)
}

/// The value must have at most `n` characters.
pub fn max_length(n: usize) -> (v: Validator)
    ensures
        v == Validator::MaxLength(n),
{
    Validator::MaxLength(n)
}

/// The value must have at least `min` and at most `max` characters.
pub fn length_range(min: usize, max: usize) -> (v: Validator)
    ensures
        v == Validator::LengthRange(min, max),
{
    Validator::LengthRange(min, max)
}

/// The value must hold an `@` and a dot.
pub fn email() -> (v: Validator)
    ensures
        v == Validator::Email,
{
    Validator::Email
}

/// The value must hold nothing but numeric characters.
pub fn numeric() -> (v: Validator)
    ensures
        v == Validator::Numeric,
{
    Validator::Numeric
}

/// The value must hold nothing but letters and numeric characters.
pub fn alphanumeric() -> (v: Validator)
    ensures
        v == Validator::Alphanumeric,
{
    Validator::Alphanumeric
}

} // verus!
