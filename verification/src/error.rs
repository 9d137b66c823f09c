//! The error taxonomy of the library: what builder validation and the
//! line-indexed editing operations can report.

use vstd::prelude::*;
use crate::json::{append_decimal, dec_digits};

verus! {

/// An error reported by the snippet builder or by a line-indexed operation.
#[derive(Debug, Clone, Copy, PartialEq, Eq, Structural)]
pub enum Error {
    /// The builder was finalized with an empty name.
    NameIsRequired,
    /// The builder was finalized with an empty prefix (trigger).
    PrefixIsRequired,
    /// The builder was finalized with no body lines.
    BodyIsEmpty,
    /// A line-indexed operation referenced a position at or beyond the body
    /// length; carries the offending index.
    IndexOutOfBounds(usize),
}

/// The human-readable text for an error value.
pub open spec fn spec_message(e: Error) -> Seq<char> {
    match e {
        Error::NameIsRequired => "Name is required"@,
        Error::PrefixIsRequired => "Prefix is required"@,
        Error::BodyIsEmpty => "Body cannot be empty"@,
        Error::IndexOutOfBounds(n) => "Index '"@ + dec_digits(n as nat) + "' out of bounds"@,
    }
}

impl Error {
    /// Renders the error as a human-readable message.
    pub fn message(&self) -> (r: String)
        ensures
            r@ == spec_message(*self),
    {
        match self {
            Error::NameIsRequired => String::from_str("Name is required"),
            Error::PrefixIsRequired => String::from_str("Prefix is required"),
            Error::BodyIsEmpty => String::from_str("Body cannot be empty"),
            Error::IndexOutOfBounds(n) => {
                let mut out = String::from_str("Index '");
                append_decimal(&mut out, *n as u128);
                out.append("' out of bounds");
                assert(out@ =~= spec_message(*self));
                out
            },
        }
    }
}

} // verus!
