//! Reading the arguments of a tool call, with their defaults.

use vstd::prelude::*;

use crate::json::{Json, JsonView};
use crate::text::{trim, trimmed};

verus! {

/// A number as a count: what is too large for memory is as good as unlimited.
pub open spec fn capped(n: u64) -> usize {
    if n > usize::MAX {
        usize::MAX
    } else {
        n as usize
    }
}

/// A number as a count.
pub fn to_count(n: u64) -> (count: usize)
    ensures
        count == capped(n),
{
    if n > usize::MAX as u64 {
        usize::MAX
    } else {
        n as usize
    }
}

/// A numeric argument.
pub open spec fn number_of(args: JsonView, name: Seq<char>, default: u64) -> u64 {
    match args.unsigned_field(name) {
        Some(n) => n,
        None => default,
    }
}

/// A numeric argument, or its default.
pub fn number_arg(args: &Json, name: &str, default: u64) -> (n: u64)
    ensures
        n == number_of(args@, name@, default),
{
    match args.get_u64(name) {
        Some(n) => n,
        None => default,
    }
}

/// A switch argument.
pub open spec fn flag_of(args: JsonView, name: Seq<char>, default: bool) -> bool {
    match args.bool_field(name) {
        Some(b) => b,
        None => default,
    }
}

/// A switch argument, or its default.
pub fn flag_arg(args: &Json, name: &str, default: bool) -> (b: bool)
    ensures
        b == flag_of(args@, name@, default),
{
    match args.get_bool(name) {
        Some(b) => b,
        None => default,
    }
}

/// A text argument: blank, where it is not given.
pub open spec fn text_of(args: JsonView, name: Seq<char>) -> Seq<char> {
    match args.text_field(name) {
        Some(t) => t,
        None => Seq::empty(),
    }
}

/// A text argument, or the empty text.
pub fn text_arg(args: &Json, name: &str) -> (text: String)
    ensures
        text@ == text_of(args@, name@),
{
    match args.get_str(name) {
        Some(t) => t.to_owned(),
        None => String::new(),
    }
}

/// A text argument without the white space around it, where something is left.
pub open spec fn trimmed_of(args: JsonView, name: Seq<char>) -> Option<Seq<char>> {
    match args.text_field(name) {
        Some(t) => if trimmed(t).len() > 0 {
            Some(trimmed(t))
        } else {
            None
        },
        None => None,
    }
}

/// A text argument without the white space around it, where something is left.
pub fn trimmed_arg(args: &Json, name: &str) -> (text: Option<String>)
    ensures
        crate::text::string_view(text) == trimmed_of(args@, name@),
{
    match args.get_str(name) {
        Some(t) => {
            let inner = trim(t);
            if inner.as_str().is_empty() {
                None
            } else {
                Some(inner)
            }
        },
        None => None,
    }
}

/// An argument that is given counts as it is, and one that is not counts as its default; a
/// text counts without the white space around it, where it is read so.
pub proof fn law_given_arguments_count(
    args: JsonView,
    name: Seq<char>,
    number: u64,
    flag: bool,
)
    ensures
        args.unsigned_field(name) matches Some(given) ==> number_of(args, name, number) == given,
        args.unsigned_field(name) is None ==> number_of(args, name, number) == number,
        args.bool_field(name) matches Some(given) ==> flag_of(args, name, flag) == given,
        args.bool_field(name) is None ==> flag_of(args, name, flag) == flag,
        args.text_field(name) matches Some(given) ==> text_of(args, name) == given,
        args.text_field(name) is None ==> text_of(args, name).len() == 0 && trimmed_of(args, name)
            is None,
        args.text_field(name) matches Some(given) ==> trimmed_of(args, name) == if trimmed(
            given,
        ).len() > 0 {
            Some(trimmed(given))
        } else {
            None
        },
        number <= usize::MAX ==> capped(number) == number,
        number > usize::MAX ==> capped(number) == usize::MAX,
{
}

} // verus!
