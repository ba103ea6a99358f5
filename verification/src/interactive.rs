//! How a value is chosen from a command line argument, an answer typed at a
//! prompt, and a default.
//!
//! The prompt itself is shown by the caller, and only when no argument was
//! given; its outcome is handed in here: `None` when the prompt failed.
use vstd::prelude::*;

verus! {

/// The value of an optional text: the argument when given; else the typed
/// answer unless it is empty; else the default.
pub open spec fn text_opt_spec(
    argument: Option<Seq<char>>,
    default: Option<Seq<char>>,
    answer: Option<Seq<char>>,
) -> Option<Seq<char>> {
    match argument {
        Some(a) => Some(a),
        None => match answer {
            Some(t) => if t.len() == 0 {
                default
            } else {
                Some(t)
            },
            None => default,
        },
    }
}

/// The view of an optional string.
pub open spec fn opt_view(o: Option<String>) -> Option<Seq<char>> {
    match o {
        Some(s) => Some(s@),
        None => None,
    }
}

/// Whether the prompt has to be shown: only when no argument was given.
pub fn needs_prompt<T>(argument: &Option<T>) -> (b: bool)
    ensures
        b == argument is None,
{
    argument.is_none()
}

/// Chooses an optional text value. `answer` is what was typed at the prompt
/// (`None` when the prompt failed); it is not looked at when an argument was
/// given.
pub fn text_opt(argument: Option<String>, default: Option<String>, answer: Option<String>) -> (r:
    Option<String>)
    ensures
        opt_view(r) == text_opt_spec(opt_view(argument), opt_view(default), opt_view(answer)),
{
    if argument.is_some() {
        return argument;
    }
    match answer {
        Some(input) => {
            if input.as_str().is_empty() {
                proof {
                    assert(input@.len() == 0);
                }
                default
            } else {
                proof {
                    assert(input@.len() != 0);
                }
                Some(input)
            }
        },
        None => default,
    }
}

/// A required value was not provided.
#[derive(Debug, PartialEq, Eq, Structural)]
pub enum InteractiveError {
    NoValueProvided,
}

impl InteractiveError {
    /// The message shown to the user.
    pub fn message(&self) -> (s: String)
        ensures
            s@ == "No value provided"@,
    {
        String::from_str("No value provided")
    }
}

/// Chooses a required text value: as `text_opt`, and an error where that
/// gives nothing.
pub fn text_req(argument: Option<String>, default: Option<String>, answer: Option<String>) -> (r:
    Result<String, InteractiveError>)
    ensures
        match text_opt_spec(opt_view(argument), opt_view(default), opt_view(answer)) {
            Some(v) => r matches Ok(s) && s@ == v,
            None => r == Err::<String, InteractiveError>(InteractiveError::NoValueProvided),
        },
{
    match text_opt(argument, default, answer) {
        Some(value) => Ok(value),
        None => Err(InteractiveError::NoValueProvided),
    }
}

/// The value of an optional yes/no choice: the argument when given; else the
/// selected item (`0` is "Yes", `1` is "No"); else the default.
pub open spec fn bool_opt_spec(
    argument: Option<bool>,
    default: Option<bool>,
    selection: Option<usize>,
) -> Option<bool> {
    match argument {
        Some(a) => Some(a),
        None => match selection {
            Some(0) => Some(true),
            Some(1) => Some(false),
            _ => default,
        },
    }
}

/// The item of the yes/no prompt that starts selected: "Yes" for a default
/// of `true`, "No" for `false`, none without a default.
pub fn bool_default_item(default: Option<bool>) -> (r: Option<usize>)
    ensures
        r == match default {
            Some(true) => Some(0usize),
            Some(false) => Some(1usize),
            None => None::<usize>,
        },
{
    match default {
        Some(true) => Some(0),
        Some(false) => Some(1),
        None => None,
    }
}

/// Chooses an optional yes/no value. `selection` is the index of the item
/// picked at the prompt ("Yes" then "No"), `None` when the prompt failed.
pub fn bool_opt(argument: Option<bool>, default: Option<bool>, selection: Option<usize>) -> (r:
    Option<bool>)
    ensures
        r == bool_opt_spec(argument, default, selection),
{
    if argument.is_some() {
        return argument;
    }
    match selection {
        Some(0) => Some(true),
        Some(1) => Some(false),
        _ => default,
    }
}

} // verus!
