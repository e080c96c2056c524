//! The error type shared by every command constructor.
use vstd::prelude::*;
use vstd::string::StringExecFns;

use crate::numtext::dec_str;
use crate::numtext::u32_to_string;

verus! {

/// Everything that can go wrong while building a command from user input.
#[derive(Debug, Clone)]
pub enum QuikError {
    UnrecognizedDeck(String),
    NotANumber(String),
    DiceMissingExpr,
    DiceBadExpr(String),
    DiceBadSides,
    DiceBadType(String),
    UnparseableTerm,
    PercentZero,
    PercentOverflow(u32),
    EmptyRange,
    ListEmpty,
    ListOne,
}

impl QuikError {
    /// The one-line human-readable rendering of the error.
    pub open spec fn message_spec(&self) -> Seq<char> {
        match self {
            QuikError::UnrecognizedDeck(s) => "Unrecognized deck type "@ + s@,
            QuikError::NotANumber(s) => "Non-number somehow passed parsing "@ + s@,
            QuikError::DiceMissingExpr => "Missing dice expression"@,
            QuikError::DiceBadExpr(s) => "Failed parsing dice expression "@ + s@,
            QuikError::DiceBadSides => "No sides specified"@,
            QuikError::DiceBadType(s) => "Unrecognized die type "@ + s@,
            QuikError::UnparseableTerm => "Unparseable term"@,
            QuikError::PercentZero => "percent arg cannot be 0"@,
            QuikError::PercentOverflow(n) => "percent arg cannot be 100 percent or greater "@
                + dec_str(*n as int),
            QuikError::EmptyRange => "High parameter cannot equal low parameter"@,
            QuikError::ListEmpty => "Missing required strings"@,
            QuikError::ListOne => "Must supply at least two strings"@,
        }
    }

    /// Render the error as a single line of text.
    pub fn message(&self) -> (r: String)
        ensures
            r@ == self.message_spec(),
    {
        match self {
            QuikError::UnrecognizedDeck(s) => String::from_str(
                "Unrecognized deck type ",
            ).concat(s.as_str()),
            QuikError::NotANumber(s) => String::from_str(
                "Non-number somehow passed parsing ",
            ).concat(s.as_str()),
            QuikError::DiceMissingExpr => String::from_str("Missing dice expression"),
            QuikError::DiceBadExpr(s) => String::from_str(
                "Failed parsing dice expression ",
            ).concat(s.as_str()),
            QuikError::DiceBadSides => String::from_str("No sides specified"),
            QuikError::DiceBadType(s) => String::from_str(
                "Unrecognized die type ",
            ).concat(s.as_str()),
            QuikError::UnparseableTerm => String::from_str("Unparseable term"),
            QuikError::PercentZero => String::from_str("percent arg cannot be 0"),
            QuikError::PercentOverflow(n) => String::from_str(
                "percent arg cannot be 100 percent or greater ",
            ).concat(u32_to_string(*n).as_str()),
            QuikError::EmptyRange => String::from_str("High parameter cannot equal low parameter"),
            QuikError::ListEmpty => String::from_str("Missing required strings"),
            QuikError::ListOne => String::from_str("Must supply at least two strings"),
        }
    }
}

impl PartialEq for QuikError {
    fn eq(&self, other: &QuikError) -> (r: bool) {
        match (self, other) {
            (QuikError::UnrecognizedDeck(a), QuikError::UnrecognizedDeck(b)) => crate::numtext::str_eq(
                a.as_str(),
                b.as_str(),
            ),
            (QuikError::NotANumber(a), QuikError::NotANumber(b)) => crate::numtext::str_eq(
                a.as_str(),
                b.as_str(),
            ),
            (QuikError::DiceMissingExpr, QuikError::DiceMissingExpr) => true,
            (QuikError::DiceBadExpr(a), QuikError::DiceBadExpr(b)) => crate::numtext::str_eq(
                a.as_str(),
                b.as_str(),
            ),
            (QuikError::DiceBadSides, QuikError::DiceBadSides) => true,
            (QuikError::DiceBadType(a), QuikError::DiceBadType(b)) => crate::numtext::str_eq(
                a.as_str(),
                b.as_str(),
            ),
            (QuikError::UnparseableTerm, QuikError::UnparseableTerm) => true,
            (QuikError::PercentZero, QuikError::PercentZero) => true,
            (QuikError::PercentOverflow(a), QuikError::PercentOverflow(b)) => *a == *b,
            (QuikError::EmptyRange, QuikError::EmptyRange) => true,
            (QuikError::ListEmpty, QuikError::ListEmpty) => true,
            (QuikError::ListOne, QuikError::ListOne) => true,
            (_, _) => false,
        }
    }
}

impl vstd::std_specs::cmp::PartialEqSpecImpl for QuikError {
    open spec fn obeys_eq_spec() -> bool {
        true
    }

    open spec fn eq_spec(&self, other: &QuikError) -> bool {
        match (self, other) {
            (QuikError::UnrecognizedDeck(a), QuikError::UnrecognizedDeck(b)) => a@ == b@,
            (QuikError::NotANumber(a), QuikError::NotANumber(b)) => a@ == b@,
            (QuikError::DiceMissingExpr, QuikError::DiceMissingExpr) => true,
            (QuikError::DiceBadExpr(a), QuikError::DiceBadExpr(b)) => a@ == b@,
            (QuikError::DiceBadSides, QuikError::DiceBadSides) => true,
            (QuikError::DiceBadType(a), QuikError::DiceBadType(b)) => a@ == b@,
            (QuikError::UnparseableTerm, QuikError::UnparseableTerm) => true,
            (QuikError::PercentZero, QuikError::PercentZero) => true,
            (QuikError::PercentOverflow(a), QuikError::PercentOverflow(b)) => a == b,
            (QuikError::EmptyRange, QuikError::EmptyRange) => true,
            (QuikError::ListEmpty, QuikError::ListEmpty) => true,
            (QuikError::ListOne, QuikError::ListOne) => true,
            (_, _) => false,
        }
    }
}

} // verus!
