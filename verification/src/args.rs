//! Arguments of the `nelisp-gtk-*` primitives as plain values, and the
//! checks each primitive applies to them.

use vstd::prelude::*;

use crate::text::{decimal, decimal_chars, push_chars, push_str};

verus! {

/// One argument passed from Lisp, as far as the primitives look at it.
#[derive(Clone, Debug, PartialEq, Eq)]
pub enum LispArg {
    Int(i64),
    Str(String),
    /// Any other Lisp value (nil, a symbol, a list, ...).
    Other,
}

/// Why an argument was refused.
#[derive(Clone, Debug, PartialEq, Eq)]
pub enum ArgError {
    /// Argument `index` has the wrong type; `expected` describes the one
    /// wanted.
    WrongType { expected: String, index: usize },
    /// There is no argument `index`.
    Missing { message: String, index: usize },
}

/// `NAME: KIND arg #IDX`, the description of a wanted argument.
pub open spec fn arg_description(name: Seq<char>, kind: Seq<char>, idx: usize) -> Seq<char> {
    name + ": "@ + kind + " arg #"@ + decimal(idx as nat)
}

/// `NAME: missing arg #IDX`.
pub open spec fn missing_message(name: Seq<char>, idx: usize) -> Seq<char> {
    name + ": missing arg #"@ + decimal(idx as nat)
}

fn describe(name: &str, kind: &str, idx: usize) -> (s: String)
    ensures
        s@ == arg_description(name@, kind@, idx),
{
    let mut s = name.to_owned();
    push_str(&mut s, ": ");
    push_str(&mut s, kind);
    push_str(&mut s, " arg #");
    let d = decimal_chars(idx as u64);
    push_chars(&mut s, &d);
    s
}

fn missing(name: &str, idx: usize) -> (s: String)
    ensures
        s@ == missing_message(name@, idx),
{
    let mut s = name.to_owned();
    push_str(&mut s, ": missing arg #");
    let d = decimal_chars(idx as u64);
    push_chars(&mut s, &d);
    s
}

/// What `want_int` answers for argument `idx`.
pub open spec fn want_int_spec(args: Seq<LispArg>, idx: usize, name: Seq<char>) -> Result<i64, (bool, Seq<char>)> {
    if idx < args.len() {
        match args[idx as int] {
            LispArg::Int(n) => Ok(n),
            _ => Err((true, arg_description(name, "integer"@, idx))),
        }
    } else {
        Err((false, missing_message(name, idx)))
    }
}

/// An error as (is it a type error, its text), for comparing with a spec.
pub open spec fn error_view(e: ArgError) -> (bool, Seq<char>) {
    match e {
        ArgError::WrongType { expected, index } => (true, expected@),
        ArgError::Missing { message, index } => (false, message@),
    }
}

/// The index an error is about.
pub open spec fn error_index(e: ArgError) -> usize {
    match e {
        ArgError::WrongType { expected, index } => index,
        ArgError::Missing { message, index } => index,
    }
}

/// Argument `idx` of primitive `name` as an integer: an error naming the
/// wanted type when it is not an integer, or the missing index when there
/// are too few arguments.
pub fn want_int(args: &Vec<LispArg>, idx: usize, name: &str) -> (r: Result<i64, ArgError>)
    ensures
        match (r, want_int_spec(args@, idx, name@)) {
            (Ok(a), Ok(b)) => a == b,
            (Err(e), Err(v)) => error_view(e) == v && error_index(e) == idx,
            _ => false,
        },
{
    if idx < args.len() {
        match &args[idx] {
            LispArg::Int(n) => Ok(*n),
            _ => Err(ArgError::WrongType { expected: describe(name, "integer", idx), index: idx }),
        }
    } else {
        Err(ArgError::Missing { message: missing(name, idx), index: idx })
    }
}

/// What `want_string` answers for argument `idx`.
pub open spec fn want_string_spec(args: Seq<LispArg>, idx: usize, name: Seq<char>) -> Result<Seq<char>, (bool, Seq<char>)> {
    if idx < args.len() {
        match args[idx as int] {
            LispArg::Str(s) => Ok(s@),
            _ => Err((true, arg_description(name, "string"@, idx))),
        }
    } else {
        Err((false, missing_message(name, idx)))
    }
}

/// Argument `idx` of primitive `name` as a string: an error naming the
/// wanted type when it is not a string, or the missing index when there
/// are too few arguments.
pub fn want_string(args: &Vec<LispArg>, idx: usize, name: &str) -> (r: Result<String, ArgError>)
    ensures
        match (r, want_string_spec(args@, idx, name@)) {
            (Ok(a), Ok(b)) => a@ == b,
            (Err(e), Err(v)) => error_view(e) == v && error_index(e) == idx,
            _ => false,
        },
{
    if idx < args.len() {
        match &args[idx] {
            LispArg::Str(s) => Ok(s.clone()),
            _ => Err(ArgError::WrongType { expected: describe(name, "string", idx), index: idx }),
        }
    } else {
        Err(ArgError::Missing { message: missing(name, idx), index: idx })
    }
}

/// The cursor position two integer arguments name, or none (hiding the
/// cursor) for any other first two arguments.
pub open spec fn cursor_from_args_spec(args: Seq<LispArg>) -> Option<(usize, usize)> {
    if args.len() >= 2 {
        match (args[0], args[1]) {
            (LispArg::Int(r), LispArg::Int(c)) => Some((r as usize, c as usize)),
            _ => None,
        }
    } else {
        None
    }
}

/// The cursor position given by the arguments `(ROW COL)`; anything else
/// (such as `(nil)`) hides the cursor.
pub fn cursor_from_args(args: &Vec<LispArg>) -> (c: Option<(usize, usize)>)
    ensures
        c == cursor_from_args_spec(args@),
{
    if args.len() >= 2 {
        match (&args[0], &args[1]) {
            (LispArg::Int(r), LispArg::Int(c)) => Some((#[verifier::truncate] (*r as usize), #[verifier::truncate] (*c as usize))),
            _ => None,
        }
    } else {
        None
    }
}

/// The row an optional integer argument names, or none for anything else.
pub open spec fn row_from_arg_spec(args: Seq<LispArg>) -> Option<usize> {
    if args.len() >= 1 {
        match args[0] {
            LispArg::Int(r) => Some(r as usize),
            _ => None,
        }
    } else {
        None
    }
}

/// The mode-line row given by the argument `ROW`; anything else (such as
/// nil) means no mode line.
pub fn row_from_arg(args: &Vec<LispArg>) -> (r: Option<usize>)
    ensures
        r == row_from_arg_spec(args@),
{
    if args.len() >= 1 {
        match &args[0] {
            LispArg::Int(r) => Some(#[verifier::truncate] (*r as usize)),
            _ => None,
        }
    } else {
        None
    }
}

/// Argument `idx` when it is a string, else `default`.
pub open spec fn string_or_spec(args: Seq<LispArg>, idx: usize, default: Seq<char>) -> Seq<char> {
    if idx < args.len() {
        match args[idx as int] {
            LispArg::Str(s) => s@,
            _ => default,
        }
    } else {
        default
    }
}

/// Argument `idx` when it is a string (such as an optional dialog title),
/// else `default`.
pub fn string_or(args: &Vec<LispArg>, idx: usize, default: &str) -> (s: String)
    ensures
        s@ == string_or_spec(args@, idx, default@),
{
    if idx < args.len() {
        match &args[idx] {
            LispArg::Str(s) => s.clone(),
            _ => default.to_owned(),
        }
    } else {
        default.to_owned()
    }
}

/// Argument `idx` when it is a string, else none.
pub fn string_opt(args: &Vec<LispArg>, idx: usize) -> (s: Option<String>)
    ensures
        match s {
            Some(t) => idx < args@.len() && (args@[idx as int] matches LispArg::Str(u) && t@ == u@),
            None => !(idx < args@.len() && args@[idx as int] is Str),
        },
{
    if idx < args.len() {
        match &args[idx] {
            LispArg::Str(s) => Some(s.clone()),
            _ => None,
        }
    } else {
        None
    }
}

} // verus!
