//! Failures outside the front-matter grammar, and the shared diagnostic
//! renderer under its historical second home.

use vstd::prelude::*;

use crate::parse::diag_msg;

verus! {

/// A build failure that is not a front-matter parse error: an I/O failure, or
/// a failure reported by the template engine. Each carries the underlying
/// message.
#[derive(Debug, PartialEq)]
pub enum CustomError {
    IOError(String),
    LiquidError(String),
}

/// The spec-level shape of a [`CustomError`].
pub enum CustomErrorModel {
    IOError(Seq<char>),
    LiquidError(Seq<char>),
}

impl View for CustomError {
    type V = CustomErrorModel;

    open spec fn view(&self) -> CustomErrorModel {
        match self {
            CustomError::IOError(s) => CustomErrorModel::IOError(s@),
            CustomError::LiquidError(s) => CustomErrorModel::LiquidError(s@),
        }
    }
}

impl CustomError {
    /// The error's kind-prefixed report, one line per error.
    pub open spec fn describe_spec(&self) -> Seq<char> {
        match self {
            CustomError::IOError(s) => "IO error: "@ + s@ + "\n"@,
            CustomError::LiquidError(s) => "Liquid error: "@ + s@ + "\n"@,
        }
    }

    /// Renders the error for reporting.
    pub fn describe(&self) -> (r: String)
        ensures
            r@ == self.describe_spec(),
    {
        match self {
            CustomError::IOError(s) => String::from_str("IO error: ").concat(s.as_str()).concat(
                "\n",
            ),
            CustomError::LiquidError(s) => String::from_str("Liquid error: ").concat(
                s.as_str(),
            ).concat("\n"),
        }
    }
}

/// Renders a human-readable, pointer-annotated message; the same renderer as
/// the parser's.
pub fn parse_error_message(
    message: &str,
    path: &str,
    line: &str,
    start: usize,
    end: usize,
    lineno: i8,
) -> (r: String)
    ensures
        r@ == diag_msg(message@, path@, line@, start as int, end as int, lineno as int),
{
    crate::parse::parse_error_message(message, path, line, start, end, lineno)
}

} // verus!
