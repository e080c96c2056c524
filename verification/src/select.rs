//! Select one string from a supplied list.
use vstd::prelude::*;

use crate::decision::Decision;
use crate::error::QuikError;
use crate::numtext::vec_string_eq;
use crate::ApiDoc;
use crate::Command;
use crate::Decider;

verus! {

#[derive(Debug, Clone)]
pub struct Choices(pub Vec<String>);

impl View for Choices {
    type V = Seq<Seq<char>>;

    open spec fn view(&self) -> Seq<Seq<char>> {
        self.0.deep_view()
    }
}

/// Create a Selection Command variant from the supplied Vec of Strings.
pub fn command(strings: Vec<String>) -> (r: Result<Command, QuikError>)
    ensures
        strings@.len() == 0 ==> r matches Err(QuikError::ListEmpty),
        strings@.len() == 1 ==> r matches Err(QuikError::ListOne),
        strings@.len() >= 2 ==> (r matches Ok(c) && c matches Command::Selection(cs)
            && cs@ == strings.deep_view()),
{
    if strings.len() == 0 {
        Err(QuikError::ListEmpty)
    } else if strings.len() == 1 {
        Err(QuikError::ListOne)
    } else {
        Ok(Command::Selection(Choices(strings)))
    }
}

/// Return an ApiDoc object containing a description of the Selection
/// decider.
pub fn api_doc() -> (r: ApiDoc)
    ensures
        r.name@ == "select"@,
        r.params@.len() == 1,
        r.params@[0]@ == "strs"@,
        r.hint@ == "Select one of two or more strings supplied as arguments"@,
        r.help@.len() > 0,
{
    ApiDoc {
        name: "select",
        params: vec!["strs"],
        hint: "Select one of two or more strings supplied as arguments",
        help: vec![
            "Selects one of the supplied strings with equal probability. There must be",
            "at least two strings to choose between.",
        ],
    }
}

impl Decider for Choices {
    open spec fn valid(&self) -> bool {
        self@.len() >= 1
    }

    open spec fn decides(&self, d: Decision) -> bool {
        d matches Decision::Text(t) && self@.contains(t@)
    }

    /// Return a Text Decision containing one of the strings from the Vec
    /// chosen at random.
    fn decide(&self) -> (d: Decision) {
        let picked = crate::pick_one(&self.0);
        proof {
            let i = choose|i: int| 0 <= i < self.0@.len() && picked@ == self.0@[i]@;
            assert(self@[i] == picked@);
        }
        Decision::Text(picked)
    }
}

impl PartialEq for Choices {
    fn eq(&self, other: &Choices) -> (r: bool) {
        vec_string_eq(&self.0, &other.0)
    }
}

impl vstd::std_specs::cmp::PartialEqSpecImpl for Choices {
    open spec fn obeys_eq_spec() -> bool {
        true
    }

    open spec fn eq_spec(&self, other: &Choices) -> bool {
        self@ == other@
    }
}

} // verus!
