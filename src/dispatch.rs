//! Replies to commands that could not be run.

use vstd::prelude::*;
use crate::text::{decimal, push_decimal};

verus! {

/// The reply to a command given too few arguments.
pub open spec fn too_few_text(min: nat, given: nat) -> Seq<char> {
    "Need "@ + decimal(min) + " arguments, only got "@ + decimal(given)
        + ". Try using `help <command>` to get usage."@
}

/// The reply to a command given too many arguments.
pub open spec fn too_many_text(max: nat, given: nat) -> Seq<char> {
    "Too many arguments. Expected "@ + decimal(max) + ", got "@ + decimal(given)
        + ". Try using `help <command>` to get usage."@
}

/// The reply to a command that needs `min` arguments and got `given`.
pub fn not_enough_arguments_message(min: u64, given: u64) -> (m: String)
    ensures
        m@ == too_few_text(min as nat, given as nat),
{
    let mut m = String::from_str("Need ");
    push_decimal(&mut m, min);
    m.append(" arguments, only got ");
    push_decimal(&mut m, given);
    m.append(". Try using `help <command>` to get usage.");
    m
}

/// The reply to a command that takes at most `max` arguments and got `given`.
pub fn too_many_arguments_message(max: u64, given: u64) -> (m: String)
    ensures
        m@ == too_many_text(max as nat, given as nat),
{
    let mut m = String::from_str("Too many arguments. Expected ");
    push_decimal(&mut m, max);
    m.append(", got ");
    push_decimal(&mut m, given);
    m.append(". Try using `help <command>` to get usage.");
    m
}

} // verus!
