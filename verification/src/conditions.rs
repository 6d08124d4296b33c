//! Steps that run only if a variable is set, or only unless one is.

use crate::config::CommandStep;
use crate::text::{blank, is_blank, option_view, white};
use crate::vars::{bindings, Entries, Vars};
use vstd::prelude::*;

verus! {

/// A variable counts as set when it has a value that is not blank.
pub open spec fn is_set(entries: Entries, name: Seq<char>) -> bool {
    bindings(entries).contains_key(name) && !blank(bindings(entries)[name])
}

/// The variable of `if_condition` is set, and that of `unless` is not.
pub open spec fn conditions_hold(
    if_condition: Option<Seq<char>>,
    unless: Option<Seq<char>>,
    entries: Entries,
) -> bool {
    &&& if_condition matches Some(name) ==> is_set(entries, name)
    &&& unless matches Some(name) ==> !is_set(entries, name)
}

fn has_value(vars: &Vars, name: &str) -> (result: bool)
    ensures
        result == is_set(vars@, name@),
{
    match vars.get(name) {
        Some(value) => !is_blank(value.as_str()),
        None => false,
    }
}

/// Whether the conditions of a step are met.
pub fn check_conditions(
    if_condition: &Option<String>,
    unless: &Option<String>,
    vars: &Vars,
) -> (result: bool)
    ensures
        result == conditions_hold(option_view(*if_condition), option_view(*unless), vars@),
{
    if let Some(name) = if_condition {
        if !has_value(vars, name.as_str()) {
            return false;
        }
    }
    if let Some(name) = unless {
        if has_value(vars, name.as_str()) {
            return false;
        }
    }
    true
}

/// Whether a command is to run, given the variables.
pub fn should_run_step(cmd: &CommandStep, vars: &Vars) -> (result: bool)
    ensures
        result == conditions_hold(option_view(cmd.if_condition), option_view(cmd.unless), vars@),
{
    check_conditions(&cmd.if_condition, &cmd.unless, vars)
}

/// Of two steps, one with `if` and one with `unless` on the same variable, exactly one runs.
pub proof fn law_if_and_unless_are_opposites(name: Seq<char>, entries: Entries)
    ensures
        conditions_hold(Some(name), None, entries) != conditions_hold(None, Some(name), entries),
{
}

/// A variable counts as set exactly if it has a value with a character that is not white space.
pub proof fn law_set_variables(name: Seq<char>, entries: Entries)
    ensures
        is_set(entries, name) <==> bindings(entries).contains_key(name) && exists|i: int|
            0 <= i < bindings(entries)[name].len() && !white(
                #[trigger] bindings(entries)[name][i],
            ),
{
}

/// A step with both conditions runs exactly if the one variable is set and the other is not; a
/// step without conditions always runs.
pub proof fn law_both_conditions_count(a: Seq<char>, b: Seq<char>, entries: Entries)
    ensures
        conditions_hold(Some(a), Some(b), entries) <==> is_set(entries, a) && !is_set(entries, b),
        conditions_hold(Some(a), None, entries) <==> is_set(entries, a),
        conditions_hold(None, Some(b), entries) <==> !is_set(entries, b),
        conditions_hold(None, None, entries),
{
}

}
