//! Ask the oracle: a random answer under a random label.
use vstd::prelude::*;
use vstd::string::StringExecFns;

use crate::decision::Decision;
use crate::error::QuikError;
use crate::ApiDoc;
use crate::Command;
use crate::Decider;

verus! {

#[derive(Debug, Clone, PartialEq, Eq, Structural)]
pub struct Oracle;

/// The answers the oracle can give: nine positive, nine negative, and six
/// indeterminate.
pub open spec fn oracle_answers() -> Seq<Seq<char>> {
    seq![
        "It is certain"@,
        "It is decidedly so"@,
        "So it is written"@,
        "Most likely"@,
        "Outlook good"@,
        "Signs point to yes"@,
        "Without a doubt"@,
        "Yes"@,
        "You may rely on it"@,
        "Don't count on it"@,
        "My reply is no"@,
        "My sources say no"@,
        "No"@,
        "Not a chance"@,
        "Outlook not so good"@,
        "Very doubtful"@,
        "You must be joking"@,
        "The spirits say no"@,
        "Ask again later"@,
        "Cannot predict now"@,
        "Concentrate and ask again"@,
        "Reply hazy, try again"@,
        "The future is uncertain"@,
        "I have no answer at this time"@,
    ]
}

/// The phrases the oracle can introduce an answer with.
pub open spec fn oracle_labels() -> Seq<Seq<char>> {
    seq![
        "Thus spoke the Oracle"@,
        "Thus sayeth the Oracle"@,
        "The Oracle says"@,
        "The Oracle intoned"@,
        "On this day, the Oracle says"@,
        "It is commonly said"@,
        "The voices told me to say"@,
        "The elder said"@,
        "Would you believe"@,
        "The fortune cookie says"@,
    ]
}

fn answers() -> (v: Vec<String>)
    ensures
        v.deep_view() == oracle_answers(),
{
    let v = vec![
        String::from_str("It is certain"),
        String::from_str("It is decidedly so"),
        String::from_str("So it is written"),
        String::from_str("Most likely"),
        String::from_str("Outlook good"),
        String::from_str("Signs point to yes"),
        String::from_str("Without a doubt"),
        String::from_str("Yes"),
        String::from_str("You may rely on it"),
        String::from_str("Don't count on it"),
        String::from_str("My reply is no"),
        String::from_str("My sources say no"),
        String::from_str("No"),
        String::from_str("Not a chance"),
        String::from_str("Outlook not so good"),
        String::from_str("Very doubtful"),
        String::from_str("You must be joking"),
        String::from_str("The spirits say no"),
        String::from_str("Ask again later"),
        String::from_str("Cannot predict now"),
        String::from_str("Concentrate and ask again"),
        String::from_str("Reply hazy, try again"),
        String::from_str("The future is uncertain"),
        String::from_str("I have no answer at this time"),
    ];
    proof {
        assert(v.deep_view() =~= oracle_answers());
    }
    v
}

fn labels() -> (v: Vec<String>)
    ensures
        v.deep_view() == oracle_labels(),
{
    let v = vec![
        String::from_str("Thus spoke the Oracle"),
        String::from_str("Thus sayeth the Oracle"),
        String::from_str("The Oracle says"),
        String::from_str("The Oracle intoned"),
        String::from_str("On this day, the Oracle says"),
        String::from_str("It is commonly said"),
        String::from_str("The voices told me to say"),
        String::from_str("The elder said"),
        String::from_str("Would you believe"),
        String::from_str("The fortune cookie says"),
    ];
    proof {
        assert(v.deep_view() =~= oracle_labels());
    }
    v
}

/// Return an ApiDoc object containing a description of the Oracle decider.
pub fn api_doc() -> (r: ApiDoc)
    ensures
        r.name@ == "oracle"@,
        r.params@.len() == 0,
        r.hint@ == "Return a random answer from the oracle"@,
        r.help@.len() > 0,
{
    ApiDoc {
        name: "oracle",
        params: Vec::new(),
        hint: "Return a random answer from the oracle",
        help: vec![
            "This command returns a string randomly selected from the Oracle's set of",
            "9 positive answers, 9 negative answers, or 6 indeterminate answers.",
        ],
    }
}

/// Construct an Oracle Command variant
pub fn command() -> (r: Result<Command, QuikError>)
    ensures
        r matches Ok(c) && c matches Command::Oracle(_),
{
    Ok(Command::Oracle(Oracle {  }))
}

impl Decider for Oracle {
    open spec fn valid(&self) -> bool {
        true
    }

    open spec fn decides(&self, d: Decision) -> bool {
        d matches Decision::LabelledText { value, label } && oracle_answers().contains(value@)
            && oracle_labels().contains(label@)
    }

    /// Perform the actual decision for the Oracle and return the Decision.
    fn decide(&self) -> (d: Decision) {
        let answer_list = answers();
        let label_list = labels();
        proof {
            assert(answer_list@.len() == answer_list.deep_view().len());
            assert(label_list@.len() == label_list.deep_view().len());
        }
        let value = crate::pick_one(&answer_list);
        let label = crate::pick_one(&label_list);
        proof {
            let i = choose|i: int|
                0 <= i < answer_list@.len() && value@ == answer_list@[i]@;
            assert(oracle_answers()[i] == value@);
            let j = choose|j: int|
                0 <= j < label_list@.len() && label@ == label_list@[j]@;
            assert(oracle_labels()[j] == label@);
        }
        Decision::LabelledText { value, label }
    }
}

} // verus!
