//! The value returned from a decider.
use vstd::prelude::*;

use crate::deck;

verus! {

/// The Decision enum encapsulates values returned from the decide method.
#[derive(Debug)]
pub enum Decision {
    Text(String),
    LabelledText { value: String, label: String },
    Num(i32),
    AnnotatedNum { value: u32, extra: String },
    Bool(bool),
    List(Vec<String>),
    Card(deck::Card),
}

impl Decision {
    /// Returns true if the Decision holds plain text.
    pub fn is_text(&self) -> (r: bool)
        ensures
            r == (self matches Decision::Text(_)),
    {
        matches!(self, Decision::Text(_))
    }

    /// Returns true if the Decision holds labelled text.
    pub fn is_labelled_text(&self) -> (r: bool)
        ensures
            r == (self matches Decision::LabelledText { .. }),
    {
        matches!(self, Decision::LabelledText { .. })
    }

    /// Returns true if the Decision holds a plain number.
    pub fn is_num(&self) -> (r: bool)
        ensures
            r == (self matches Decision::Num(_)),
    {
        matches!(self, Decision::Num(_))
    }

    /// Returns true if the Decision holds a number with a description.
    pub fn is_annotated_num(&self) -> (r: bool)
        ensures
            r == (self matches Decision::AnnotatedNum { .. }),
    {
        matches!(self, Decision::AnnotatedNum { .. })
    }

    /// Returns true if the Decision holds a boolean.
    pub fn is_bool(&self) -> (r: bool)
        ensures
            r == (self matches Decision::Bool(_)),
    {
        matches!(self, Decision::Bool(_))
    }

    /// Returns true if the Decision holds a list of strings.
    pub fn is_list(&self) -> (r: bool)
        ensures
            r == (self matches Decision::List(_)),
    {
        matches!(self, Decision::List(_))
    }

    /// Returns true if the Decision holds a card.
    pub fn is_card(&self) -> (r: bool)
        ensures
            r == (self matches Decision::Card(_)),
    {
        matches!(self, Decision::Card(_))
    }
}

} // verus!
