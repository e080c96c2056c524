//! Pick a number in an inclusive range.
use vstd::prelude::*;

use crate::decision::Decision;
use crate::error::QuikError;
use crate::ApiDoc;
use crate::Command;
use crate::Decider;

verus! {

#[derive(Debug, Clone, Copy, PartialEq, Eq, Structural)]
pub struct Picker {
    pub low: i32,
    pub high: i32,
}

/// Create a PickNumber command based on the two supplied values.
/// Return either the command or an error if the parameters are not
/// appropriate. Arguments given in the wrong order are swapped.
pub fn command(low: i32, high: i32) -> (r: Result<Command, QuikError>)
    ensures
        low == high ==> r matches Err(QuikError::EmptyRange),
        low > high ==> (r matches Ok(c) && c == Command::PickNumber(Picker { low: high, high: low })),
        low < high ==> (r matches Ok(c) && c == Command::PickNumber(Picker { low, high })),
{
    if low == high {
        Err(QuikError::EmptyRange)
    } else if low > high {
        Ok(Command::PickNumber(Picker { low: high, high: low }))
    } else {
        Ok(Command::PickNumber(Picker { low, high }))
    }
}

impl Decider for Picker {
    open spec fn valid(&self) -> bool {
        self.low <= self.high
    }

    open spec fn decides(&self, d: Decision) -> bool {
        d matches Decision::Num(n) && self.low <= n <= self.high
    }

    /// Return a numeric Decision with a value between low and high
    /// (inclusive).
    fn decide(&self) -> (d: Decision) {
        Decision::Num(crate::random::rand_i32_between(self.low, self.high))
    }
}

/// Return an ApiDoc object containing a description of the PickNumber
/// decider.
pub fn api_doc() -> (r: ApiDoc)
    ensures
        r.name@ == "pick"@,
        r.params@.len() == 2,
        r.params@[0]@ == "low"@,
        r.params@[1]@ == "high"@,
        r.hint@ == "pick a number between {low} and {high}"@,
        r.help@.len() > 0,
{
    ApiDoc {
        name: "pick",
        params: vec!["low", "high"],
        hint: "pick a number between {low} and {high}",
        help: vec![
            "Selects a number between two supplied values (inclusive) with equal probability.",
            "The two numbers cannot be the same.",
        ],
    }
}

} // verus!
