//! The error type of the serializer.

use crate::text::{decimal_string, push_str, spec_decimal};
use vstd::prelude::*;

verus! {

/// What can go wrong when a value is turned into KDL (or read back).
#[derive(Debug)]
pub enum Error {
    /// A free-form message.
    Message(String),
    /// The top-level value is not a struct or a map.
    TopLevelNotStruct,
    /// A value of one kind was found where another was expected.
    TypeMismatch { expected: &'static str, got: String },
    /// A field that must be present is absent.
    MissingField(String),
    /// An integer does not fit the range that KDL integers have here.
    IntegerOutOfRange(i128),
    /// An enum variant name that the target type does not have.
    UnknownVariant(String),
    /// A construct that this format cannot express.
    Unsupported(String),
}

/// The message that an error shows.
pub open spec fn spec_error_text(e: Error) -> Seq<char> {
    match e {
        Error::Message(m) => m@,
        Error::TopLevelNotStruct => "top-level type must be a struct or map"@,
        Error::TypeMismatch { expected, got } => "type mismatch: expected "@ + expected@
            + ", got "@ + got@,
        Error::MissingField(f) => "missing field: "@ + f@,
        Error::IntegerOutOfRange(i) => "integer out of range: "@ + spec_decimal(i as int),
        Error::UnknownVariant(v) => "unknown variant: "@ + v@,
        Error::Unsupported(s) => "unsupported: "@ + s@,
    }
}

impl Error {
    /// The message that the error shows.
    pub fn to_string(&self) -> (text: String)
        ensures
            text@ == spec_error_text(*self),
    {
        let mut text = String::new();
        match self {
            Error::Message(m) => push_str(&mut text, m.as_str()),
            Error::TopLevelNotStruct => push_str(&mut text, "top-level type must be a struct or map"),
            Error::TypeMismatch { expected, got } => {
                push_str(&mut text, "type mismatch: expected ");
                push_str(&mut text, expected);
                push_str(&mut text, ", got ");
                push_str(&mut text, got.as_str());
            },
            Error::MissingField(f) => {
                push_str(&mut text, "missing field: ");
                push_str(&mut text, f.as_str());
            },
            Error::IntegerOutOfRange(i) => {
                push_str(&mut text, "integer out of range: ");
                let digits = decimal_string(*i);
                push_str(&mut text, digits.as_str());
            },
            Error::UnknownVariant(v) => {
                push_str(&mut text, "unknown variant: ");
                push_str(&mut text, v.as_str());
            },
            Error::Unsupported(s) => {
                push_str(&mut text, "unsupported: ");
                push_str(&mut text, s.as_str());
            },
        }
        text
    }
}

} // verus!
