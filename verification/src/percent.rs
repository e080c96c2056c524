//! A weighted boolean decider: true the given percent of the time.
use vstd::prelude::*;

use crate::decision::Decision;
use crate::error::QuikError;
use crate::ApiDoc;
use crate::Command;
use crate::Decider;

verus! {

#[derive(Debug, Clone, Copy, PartialEq, Eq, Structural)]
pub struct Likely(pub u32);

/// Create a PercentTrue Command based on the supplied percent value.
/// Returns the command or an error specifying an invalid parameter.
pub fn command(likely: u32) -> (r: Result<Command, QuikError>)
    ensures
        likely == 0 ==> r matches Err(QuikError::PercentZero),
        likely >= 100 ==> (r matches Err(e) && e == QuikError::PercentOverflow(likely)),
        1 <= likely < 100 ==> (r matches Ok(c) && c == Command::PercentTrue(Likely(likely))),
{
    if likely == 0 {
        Err(QuikError::PercentZero)
    } else if likely >= 100 {
        Err(QuikError::PercentOverflow(likely))
    } else {
        Ok(Command::PercentTrue(Likely(likely)))
    }
}

impl Decider for Likely {
    open spec fn valid(&self) -> bool {
        true
    }

    open spec fn decides(&self, d: Decision) -> bool {
        d matches Decision::Bool(b) && (self.0 == 0 ==> !b) && (self.0 >= 100 ==> b)
    }

    /// Return a boolean Decision with a true value likely% of the time.
    fn decide(&self) -> (d: Decision) {
        let draw = crate::random::rand_below(100);
        Decision::Bool((draw as u32) < self.0)
    }
}

/// Return an ApiDoc object containing a description of the PercentTrue
/// decider.
pub fn api_doc() -> (r: ApiDoc)
    ensures
        r.name@ == "percent"@,
        r.params@.len() == 1,
        r.params@[0]@ == "num"@,
        r.hint@ == "True {num} percent of the time, otherwise False"@,
        r.help@.len() > 0,
{
    ApiDoc {
        name: "percent",
        params: vec!["num"],
        hint: "True {num} percent of the time, otherwise False",
        help: vec![
            "Treats the supplied integer as a percentage and returns the boolean true",
            "that percent of the time. Otherwise, return the boolean false.",
        ],
    }
}

} // verus!
