//! Return the supplied strings in a random order.
use vstd::prelude::*;

use crate::decision::Decision;
use crate::error::QuikError;
use crate::numtext::vec_string_eq;
use crate::ApiDoc;
use crate::Command;
use crate::Decider;

verus! {

#[derive(Debug, Clone)]
pub struct Choices(pub Vec<String>);

impl View for Choices {
    type V = Seq<Seq<char>>;

    open spec fn view(&self) -> Seq<Seq<char>> {
        self.0.deep_view()
    }
}

/// Create a Shuffle Command variant from the supplied Vec of Strings.
pub fn command(strings: Vec<String>) -> (r: Result<Command, QuikError>)
    ensures
        strings@.len() == 0 ==> r matches Err(QuikError::ListEmpty),
        strings@.len() == 1 ==> r matches Err(QuikError::ListOne),
        strings@.len() >= 2 ==> (r matches Ok(c) && c matches Command::Shuffle(cs)
            && cs@ == strings.deep_view()),
{
    if strings.len() == 0 {
        Err(QuikError::ListEmpty)
    } else if strings.len() == 1 {
        Err(QuikError::ListOne)
    } else {
        Ok(Command::Shuffle(Choices(strings)))
    }
}

/// Return an ApiDoc object containing a description of the Shuffle
/// decider.
pub fn api_doc() -> (r: ApiDoc)
    ensures
        r.name@ == "shuffle"@,
        r.params@.len() == 1,
        r.params@[0]@ == "strs"@,
        r.hint@ == "Randomly re-order the supplied group of strings"@,
        r.help@.len() > 0,
{
    ApiDoc {
        name: "shuffle",
        params: vec!["strs"],
        hint: "Randomly re-order the supplied group of strings",
        help: vec![
            "Randomly change the order of the supplied strings. There must",
            "be at least two strings to shuffle.",
        ],
    }
}

impl Decider for Choices {
    open spec fn valid(&self) -> bool {
        true
    }

    open spec fn decides(&self, d: Decision) -> bool {
        d matches Decision::List(l) && l@.to_multiset() == self.0@.to_multiset()
    }

    /// Return a List containing the strings in a random order.
    fn decide(&self) -> (d: Decision) {
        let copied = self.0.clone();
        proof {
            assert forall|i: int| 0 <= i < self.0@.len() implies copied@[i] == self.0@[i] by {
                assert(vstd::pervasive::cloned::<String>(self.0@[i], copied@[i]));
            }
            assert(copied@ =~= self.0@);
        }
        let strvec = crate::random::shuffle_vec(copied);
        Decision::List(strvec)
    }
}

impl PartialEq for Choices {
    fn eq(&self, other: &Choices) -> (r: bool) {
        vec_string_eq(&self.0, &other.0)
    }
}

impl vstd::std_specs::cmp::PartialEqSpecImpl for Choices {
    open spec fn obeys_eq_spec() -> bool {
        true
    }

    open spec fn eq_spec(&self, other: &Choices) -> bool {
        self@ == other@
    }
}

} // verus!
