//! Decks of playing cards: the standard 52-card French deck, the same deck
//! with jokers, and the historical tarot deck.
use vstd::prelude::*;
use vstd::string::StringExecFns;

use crate::decision::Decision;
use crate::error::QuikError;
use crate::numtext::dec_str;
use crate::numtext::str_eq;
use crate::numtext::u64_to_string;
use crate::ApiDoc;
use crate::Command;
use crate::Decider;

pub mod standard;
pub mod tarot;

verus! {

/// Enum representing each of the types of cards.
/// - `Card::Pip` describes the numbered cards
/// - `Card::Face` describes the face or court cards
/// - `Card::Joker` describes the joker or fool cards
/// - `Card::Trump` describes the trump cards from a tarot deck
#[derive(Debug, Clone)]
pub enum Card {
    Pip { glyph: Option<char>, suit: &'static str, number: usize },
    Face { glyph: Option<char>, suit: &'static str, number: usize, face: &'static str },
    Joker { glyph: Option<char>, name: &'static str },
    Trump { glyph: Option<char>, name: &'static str, number: usize },
}

/// Enum representing the supported kinds of decks
/// - `Deck::Standard52`: the standard 52-card French or poker deck, without jokers
/// - `Deck::Jokers`: the same deck as above with 2 jokers
/// - `Deck::Tarot`: the historical tarot deck
#[derive(Debug, PartialEq, Eq, Structural)]
pub enum Deck {
    Standard52,
    Jokers,
    Tarot,
}

impl Card {
    /// Ranks that actually occur in a deck: pips run 1 to 10, court cards
    /// continue from 11, and trumps run 1 to 21.
    pub open spec fn wf(&self) -> bool {
        match self {
            Card::Pip { number, .. } => 1 <= *number <= 10,
            Card::Face { number, .. } => 11 <= *number <= 14,
            Card::Joker { .. } => true,
            Card::Trump { number, .. } => 1 <= *number <= 21,
        }
    }

    /// Return an Option containing the Unicode glyph associated with the card.
    pub fn glyph(&self) -> (r: Option<char>)
        ensures
            r == match self {
                Card::Pip { glyph, .. } => *glyph,
                Card::Face { glyph, .. } => *glyph,
                Card::Joker { glyph, .. } => *glyph,
                Card::Trump { glyph, .. } => *glyph,
            },
    {
        match self {
            Card::Pip { glyph, .. } => *glyph,
            Card::Face { glyph, .. } => *glyph,
            Card::Joker { glyph, .. } => *glyph,
            Card::Trump { glyph, .. } => *glyph,
        }
    }

    /// Return the Card's suit. Jokers have no suit and Trump cards have a
    /// synthetic suit of "Trumps".
    pub fn suit(&self) -> (r: &'static str)
        ensures
            r@ == match self {
                Card::Pip { suit, .. } => suit@,
                Card::Face { suit, .. } => suit@,
                Card::Joker { .. } => ""@,
                Card::Trump { .. } => "Trumps"@,
            },
    {
        match self {
            Card::Pip { suit, .. } => *suit,
            Card::Face { suit, .. } => *suit,
            Card::Joker { .. } => "",
            Card::Trump { .. } => "Trumps",
        }
    }

    /// Return a value for the card. For numeric cards, return the number. For
    /// face cards return a number greater than 10 that matches the order of
    /// the faces. Trump cards return their number values. Jokers return 0.
    pub fn value(&self) -> (r: u32)
        requires
            self.wf(),
        ensures
            r as int == match self {
                Card::Pip { number, .. } => *number as int,
                Card::Face { number, .. } => *number as int,
                Card::Joker { .. } => 0,
                Card::Trump { number, .. } => *number as int,
            },
    {
        match self {
            Card::Pip { number, .. } => *number as u32,
            Card::Face { number, .. } => *number as u32,
            Card::Joker { .. } => 0,
            Card::Trump { number, .. } => *number as u32,
        }
    }

    /// The full name of the card, as `to_string` renders it.
    pub open spec fn name_spec(&self) -> Seq<char> {
        match self {
            Card::Pip { suit, number, .. } => if *number == 1 {
                "Ace of "@ + suit@
            } else {
                dec_str(*number as int) + " of "@ + suit@
            },
            Card::Face { suit, face, .. } => face@ + " of "@ + suit@,
            Card::Joker { name, .. } => name@,
            Card::Trump { name, number, .. } => roman_of(*number as int) + " - "@ + name@,
        }
    }

    /// Render the card's full name, e.g. "Ace of Spades" or "IX - The Hermit".
    pub fn to_string(&self) -> (r: String)
        requires
            self.wf(),
        ensures
            r@ == self.name_spec(),
    {
        match self {
            Card::Pip { suit, number, .. } => {
                if *number == 1 {
                    String::from_str("Ace of ").concat(*suit)
                } else {
                    u64_to_string(*number as u64).concat(" of ").concat(*suit)
                }
            },
            Card::Face { suit, face, .. } => String::from_str(*face).concat(" of ").concat(*suit),
            Card::Joker { name, .. } => String::from_str(*name),
            Card::Trump { name, number, .. } => roman_upper(*number as i16).concat(
                " - ",
            ).concat(*name),
        }
    }
}

/// Relies on `char::from_u32`: for every valid Unicode scalar value — not
/// a surrogate, not beyond the last code point, both ruled out here — it
/// returns the character with exactly that value.
#[verifier::external_body]
pub(crate) fn char_from_code(code: u32) -> (c: char)
    requires
        code < 0xD800 || (0xE000 <= code <= 0x10FFFF),
    ensures
        c as u32 == code,
{
    match char::from_u32(code) {
        Some(c) => c,
        None => ' ',
    }
}

/// The Roman-numeral rendering of a positive integer in upper case.
pub uninterp spec fn roman_of(n: int) -> Seq<char>;

/// Relies on `numerals::roman::Roman`: `Roman::from(i16)` panics on values
/// below one (ruled out here), and formatting with `{:X}` renders the
/// upper-case Roman numeral, a function of the number alone.
#[verifier::external_body]
fn roman_upper(n: i16) -> (r: String)
    requires
        n >= 1,
    ensures
        r@ == roman_of(n as int),
{
    format!("{:X}", numerals::roman::Roman::from(n))
}

/// `c` is card `num` of the given deck.
pub open spec fn deck_card(deck: Deck, num: int, c: Card) -> bool {
    match deck {
        Deck::Standard52 => standard::is_std_card(num, c),
        Deck::Jokers => standard::is_std_or_joker(num, c),
        Deck::Tarot => tarot::is_tarot_card(num, c),
    }
}

/// How many cards the given deck holds.
pub open spec fn deck_size(deck: Deck) -> int {
    match deck {
        Deck::Standard52 => 52,
        Deck::Jokers => 54,
        Deck::Tarot => 78,
    }
}

/// Create a DrawCard Command
pub fn command(deck: &str) -> (r: Result<Command, QuikError>)
    ensures
        deck@ == "52-card"@ ==> (r matches Ok(c) && c == Command::DrawCard(Deck::Standard52)),
        deck@ == "jokers"@ ==> (r matches Ok(c) && c == Command::DrawCard(Deck::Jokers)),
        deck@ == "tarot"@ ==> (r matches Ok(c) && c == Command::DrawCard(Deck::Tarot)),
        deck@ != "52-card"@ && deck@ != "jokers"@ && deck@ != "tarot"@ ==> (r matches Err(e) && e
            matches QuikError::UnrecognizedDeck(m) && m@ == deck@),
{
    proof {
        reveal_strlit("52-card");
        reveal_strlit("jokers");
        reveal_strlit("tarot");
        assert("52-card"@.len() == 7);
        assert("jokers"@.len() == 6);
        assert("tarot"@.len() == 5);
    }
    if str_eq(deck, "52-card") {
        Ok(Command::DrawCard(Deck::Standard52))
    } else if str_eq(deck, "jokers") {
        Ok(Command::DrawCard(Deck::Jokers))
    } else if str_eq(deck, "tarot") {
        Ok(Command::DrawCard(Deck::Tarot))
    } else {
        Err(QuikError::UnrecognizedDeck(String::from_str(deck)))
    }
}

impl Decider for Deck {
    open spec fn valid(&self) -> bool {
        true
    }

    open spec fn decides(&self, d: Decision) -> bool {
        d matches Decision::Card(c) && c.wf() && exists|num: int|
            0 <= num < deck_size(*self) && #[trigger] deck_card(*self, num, c)
    }

    /// Draw a card from the deck
    fn decide(&self) -> (d: Decision) {
        let card = match self {
            Deck::Standard52 => standard::draw_card(),
            Deck::Jokers => standard::draw_card_or_joker(),
            Deck::Tarot => tarot::draw_card(),
        };
        proof {
            let num = match self {
                Deck::Standard52 => choose|num: int|
                    0 <= num < 52 && standard::is_std_card(num, card),
                Deck::Jokers => choose|num: int|
                    0 <= num < 54 && standard::is_std_or_joker(num, card),
                Deck::Tarot => choose|num: int| 0 <= num < 78 && tarot::is_tarot_card(num, card),
            };
            assert(deck_card(*self, num, card));
        }
        Decision::Card(card)
    }
}

/// Return the full deck, in a random order.
pub fn shuffled(deck: &Deck) -> (r: Vec<Card>)
    ensures
        r@.len() == deck_size(*deck),
        exists|cards: Seq<Card>|
            {
                &&& cards.len() == deck_size(*deck)
                &&& (forall|i: int| 0 <= i < cards.len() ==> #[trigger] deck_card(*deck, i, cards[i]))
                &&& r@.to_multiset() == cards.to_multiset()
            },
{
    let cards = match deck {
        Deck::Standard52 => standard::cards(),
        Deck::Jokers => standard::cards_and_jokers(),
        Deck::Tarot => tarot::cards(),
    };
    let ghost cards_view = cards@;
    let r = crate::random::shuffle_vec(cards);
    proof {
        r@.to_multiset_ensures();
        cards_view.to_multiset_ensures();
        assert(r@.to_multiset().len() == r@.len());
        assert(cards_view.to_multiset().len() == cards_view.len());
        assert(forall|i: int|
            0 <= i < cards_view.len() ==> #[trigger] deck_card(*deck, i, cards_view[i]));
    }
    r
}

/// Return an ApiDoc object containing a description of the DrawCard
/// decider.
pub fn api_doc() -> (r: ApiDoc)
    ensures
        r.name@ == "deck"@,
        r.params@.len() == 1,
        r.params@[0]@ == "type"@,
        r.hint@ == "Draw a random card from the specified deck"@,
        r.help@.len() > 0,
{
    ApiDoc {
        name: "deck",
        params: vec!["type"],
        hint: "Draw a random card from the specified deck",
        help: vec![
            "Draw a random card from the deck. Legal deck types are :",
            "  '52-card' for the standard 52 card French deck",
            "  'jokers' for the standard deck plus 2 jokers",
            "  'tarot' for the historical Tarot deck.",
        ],
    }
}

impl PartialEq for Card {
    fn eq(&self, other: &Card) -> (r: bool) {
        match (self, other) {
            (
                Card::Pip { glyph: lg, suit: ls, number: ln },
                Card::Pip { glyph: rg, suit: rs, number: rn },
            ) => opt_char_eq(lg, rg) && str_eq(ls, rs) && *ln == *rn,
            (
                Card::Face { glyph: lg, suit: ls, number: ln, face: lf },
                Card::Face { glyph: rg, suit: rs, number: rn, face: rf },
            ) => opt_char_eq(lg, rg) && str_eq(ls, rs) && *ln == *rn && str_eq(lf, rf),
            (
                Card::Joker { glyph: lg, name: ln },
                Card::Joker { glyph: rg, name: rn },
            ) => opt_char_eq(lg, rg) && str_eq(ln, rn),
            (
                Card::Trump { glyph: lg, name: ln, number: lv },
                Card::Trump { glyph: rg, name: rn, number: rv },
            ) => opt_char_eq(lg, rg) && str_eq(ln, rn) && *lv == *rv,
            (_, _) => false,
        }
    }
}

impl vstd::std_specs::cmp::PartialEqSpecImpl for Card {
    open spec fn obeys_eq_spec() -> bool {
        true
    }

    open spec fn eq_spec(&self, other: &Card) -> bool {
        match (self, other) {
            (
                Card::Pip { glyph: lg, suit: ls, number: ln },
                Card::Pip { glyph: rg, suit: rs, number: rn },
            ) => lg == rg && ls@ == rs@ && ln == rn,
            (
                Card::Face { glyph: lg, suit: ls, number: ln, face: lf },
                Card::Face { glyph: rg, suit: rs, number: rn, face: rf },
            ) => lg == rg && ls@ == rs@ && ln == rn && lf@ == rf@,
            (
                Card::Joker { glyph: lg, name: ln },
                Card::Joker { glyph: rg, name: rn },
            ) => lg == rg && ln@ == rn@,
            (
                Card::Trump { glyph: lg, name: ln, number: lv },
                Card::Trump { glyph: rg, name: rn, number: rv },
            ) => lg == rg && ln@ == rn@ && lv == rv,
            (_, _) => false,
        }
    }
}

fn opt_char_eq(a: &Option<char>, b: &Option<char>) -> (r: bool)
    ensures
        r == (a == b),
{
    match (a, b) {
        (Some(x), Some(y)) => *x == *y,
        (None, None) => true,
        (_, _) => false,
    }
}

} // verus!
