//! The simplest decider: a fair coin.
use vstd::prelude::*;
use vstd::string::StringExecFns;

use crate::decision::Decision;
use crate::error::QuikError;
use crate::ApiDoc;
use crate::Command;
use crate::Decider;

verus! {

#[derive(Debug, Clone, PartialEq, Eq, Structural)]
pub struct Coin;

impl Decider for Coin {
    open spec fn valid(&self) -> bool {
        true
    }

    open spec fn decides(&self, d: Decision) -> bool {
        d matches Decision::Text(t) && (t@ == "Heads"@ || t@ == "Tails"@)
    }

    fn decide(&self) -> (d: Decision) {
        let sides = vec![String::from_str("Heads"), String::from_str("Tails")];
        let flip = crate::pick_one(&sides);
        Decision::Text(flip)
    }
}

/// Create a CoinFlip Command
pub fn command() -> (r: Result<Command, QuikError>)
    ensures
        r matches Ok(c) && c matches Command::CoinFlip(_),
{
    Ok(Command::CoinFlip(Coin {  }))
}

/// Return an ApiDoc object containing a description of the CoinFlip
/// decider.
pub fn api_doc() -> (r: ApiDoc)
    ensures
        r.name@ == "coin"@,
        r.params@.len() == 0,
        r.hint@ == "50% chance of a Heads or Tails"@,
        r.help@.len() > 0,
{
    ApiDoc {
        name: "coin",
        params: Vec::new(),
        hint: "50% chance of a Heads or Tails",
        help: vec![
            "Returns one of the two strings 'Heads' or 'Tails'. There is an equal probability",
            "of returning either one.",
        ],
    }
}

} // verus!
