use vstd::prelude::*;

pub mod coin;
pub mod decision;
pub mod deck;
pub mod dice;
pub mod error;
pub mod help;
pub mod iterator;
pub mod numtext;
pub mod oracle;
pub mod percent;
pub mod pick;
pub mod random;
pub mod select;
pub mod shuffle;

use decision::Decision;

verus! {

/// Structure containing the documentation for a quik decision command
#[derive(Debug)]
pub struct ApiDoc {
    pub name: &'static str,
    pub params: Vec<&'static str>,
    pub hint: &'static str,
    pub help: Vec<&'static str>,
}

/// Trait for making a random decision.
///
/// `valid` says which values the decider may be asked on, `decides` says
/// what is true of every decision it can return.
pub trait Decider {
    spec fn valid(&self) -> bool;

    spec fn decides(&self, d: Decision) -> bool;

    fn decide(&self) -> (d: Decision)
        requires
            self.valid(),
        ensures
            self.decides(d),
    ;
}

/// Enum defining the types of quik decision commands, and the parameters
/// that determine their functioning.
#[derive(Debug)]
pub enum Command {
    CoinFlip(coin::Coin),
    DrawCard(deck::Deck),
    PickNumber(pick::Picker),
    PercentTrue(percent::Likely),
    RollDice(dice::Expr),
    Selection(select::Choices),
    Shuffle(shuffle::Choices),
    Oracle(oracle::Oracle),
}

impl PartialEq for Command {
    fn eq(&self, other: &Command) -> (r: bool) {
        match (self, other) {
            (Command::CoinFlip(_), Command::CoinFlip(_)) => true,
            (Command::DrawCard(a), Command::DrawCard(b)) => *a == *b,
            (Command::PickNumber(a), Command::PickNumber(b)) => *a == *b,
            (Command::PercentTrue(a), Command::PercentTrue(b)) => *a == *b,
            (Command::RollDice(a), Command::RollDice(b)) => *a == *b,
            (Command::Selection(a), Command::Selection(b)) => *a == *b,
            (Command::Shuffle(a), Command::Shuffle(b)) => *a == *b,
            (Command::Oracle(_), Command::Oracle(_)) => true,
            (_, _) => false,
        }
    }
}

impl vstd::std_specs::cmp::PartialEqSpecImpl for Command {
    open spec fn obeys_eq_spec() -> bool {
        true
    }

    open spec fn eq_spec(&self, other: &Command) -> bool {
        match (self, other) {
            (Command::CoinFlip(_), Command::CoinFlip(_)) => true,
            (Command::DrawCard(a), Command::DrawCard(b)) => a == b,
            (Command::PickNumber(a), Command::PickNumber(b)) => a == b,
            (Command::PercentTrue(a), Command::PercentTrue(b)) => a == b,
            (Command::RollDice(a), Command::RollDice(b)) => a@ == b@,
            (Command::Selection(a), Command::Selection(b)) => a@ == b@,
            (Command::Shuffle(a), Command::Shuffle(b)) => a@ == b@,
            (Command::Oracle(_), Command::Oracle(_)) => true,
            (_, _) => false,
        }
    }
}

impl Decider for Command {
    open spec fn valid(&self) -> bool {
        match self {
            Command::CoinFlip(c) => c.valid(),
            Command::DrawCard(d) => d.valid(),
            Command::PickNumber(p) => p.valid(),
            Command::PercentTrue(l) => l.valid(),
            Command::RollDice(e) => e.valid(),
            Command::Selection(c) => c.valid(),
            Command::Shuffle(c) => c.valid(),
            Command::Oracle(o) => o.valid(),
        }
    }

    open spec fn decides(&self, d: Decision) -> bool {
        match self {
            Command::CoinFlip(c) => c.decides(d),
            Command::DrawCard(dk) => dk.decides(d),
            Command::PickNumber(p) => p.decides(d),
            Command::PercentTrue(l) => l.decides(d),
            Command::RollDice(e) => e.decides(d),
            Command::Selection(c) => c.decides(d),
            Command::Shuffle(c) => c.decides(d),
            Command::Oracle(o) => o.decides(d),
        }
    }

    /// Perform the appropriate command returning a Decision object.
    fn decide(&self) -> (d: Decision) {
        match self {
            Command::CoinFlip(c) => c.decide(),
            Command::DrawCard(dk) => dk.decide(),
            Command::PickNumber(p) => p.decide(),
            Command::PercentTrue(l) => l.decide(),
            Command::RollDice(e) => e.decide(),
            Command::Selection(c) => c.decide(),
            Command::Shuffle(c) => c.decide(),
            Command::Oracle(o) => o.decide(),
        }
    }
}

/// Return the library version as a string.
pub fn version() -> (r: &'static str)
    ensures
        r@ == "0.6.0"@,
{
    "0.6.0"
}

/// Randomly select one of the supplied choices and return it as a String.
pub fn pick_one(choices: &Vec<String>) -> (r: String)
    requires
        choices@.len() > 0,
    ensures
        exists|i: int| 0 <= i < choices@.len() && r@ == choices@[i]@,
{
    let idx = random::rand_below(choices.len());
    let picked = choices[idx].clone();
    assert(picked@ == choices@[idx as int]@);
    picked
}

} // verus!
