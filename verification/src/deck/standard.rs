//! The standard 52-card French deck, with or without jokers.
//!
//! Cards are numbered 0 to 51 (plus 52 and 53 for the jokers): thirteen
//! ranks per suit, ace first, in the order Spades, Hearts, Diamonds,
//! Clubs. The Unicode playing-card block assigns each card a glyph at a
//! fixed offset, with a gap where the block keeps its knight.
use vstd::prelude::*;
use vstd::string::StringExecFns;

use crate::deck::char_from_code;
use crate::deck::Card;
use crate::numtext::dec_str;
use crate::numtext::u64_to_string;

verus! {

/// The suit of card `num`, by deck order.
pub open spec fn std_suit(i: int) -> Seq<char> {
    if i == 0 {
        "Spades"@
    } else if i == 1 {
        "Hearts"@
    } else if i == 2 {
        "Diamonds"@
    } else {
        "Clubs"@
    }
}

/// The name of a court rank.
pub open spec fn face_name(rank: int) -> Seq<char> {
    if rank == 11 {
        "Jack"@
    } else if rank == 12 {
        "Queen"@
    } else {
        "King"@
    }
}

/// The Unicode code point of card `num`: the playing-card block, one row
/// of sixteen per suit, skipping the knight between jack and queen.
pub open spec fn std_glyph(num: int) -> int {
    let suit = num / 13;
    let rank = num % 13 + 1;
    0x1F0A1 + 0x10 * suit + (rank - 1) + if rank >= 12 {
        1int
    } else {
        0int
    }
}

/// The Unicode code point of joker `num` (52 or 53).
pub open spec fn joker_glyph(num: int) -> int {
    if num == 52 {
        0x1F0BF
    } else {
        0x1F0CF
    }
}

/// The name of joker `num` (52 or 53).
pub open spec fn joker_name(num: int) -> Seq<char> {
    if num == 52 {
        "Black Joker"@
    } else {
        "Red Joker"@
    }
}

/// `c` is card `num` of the bare 52-card deck.
pub open spec fn is_std_card(num: int, c: Card) -> bool {
    let suit = std_suit(num / 13);
    let rank = num % 13 + 1;
    if rank <= 10 {
        c matches Card::Pip { glyph, suit: s, number } && glyph matches Some(g) && g as u32
            == std_glyph(num) && s@ == suit && number == rank
    } else {
        c matches Card::Face { glyph, suit: s, number, face } && glyph matches Some(g) && g as u32
            == std_glyph(num) && s@ == suit && number == rank && face@ == face_name(rank)
    }
}

/// `c` is card `num` of the deck with jokers.
pub open spec fn is_std_or_joker(num: int, c: Card) -> bool {
    if num < 52 {
        is_std_card(num, c)
    } else {
        c matches Card::Joker { glyph, name } && glyph matches Some(g) && g as u32 == joker_glyph(
            num,
        ) && name@ == joker_name(num)
    }
}

/// The message given for a number with no card.
pub open spec fn out_of_range_msg(num: int) -> Seq<char> {
    dec_str(num) + " is out of range for a valid card"@
}

fn suit_str(i: usize) -> (r: &'static str)
    requires
        i < 4,
    ensures
        r@ == std_suit(i as int),
{
    if i == 0 {
        "Spades"
    } else if i == 1 {
        "Hearts"
    } else if i == 2 {
        "Diamonds"
    } else {
        "Clubs"
    }
}

fn face_str(rank: usize) -> (r: &'static str)
    requires
        11 <= rank <= 13,
    ensures
        r@ == face_name(rank as int),
{
    if rank == 11 {
        "Jack"
    } else if rank == 12 {
        "Queen"
    } else {
        "King"
    }
}

/// Convert a number from 0 to 51 to a Card as a result
pub fn card(num: usize) -> (r: Result<Card, String>)
    ensures
        num < 52 ==> (r matches Ok(c) && is_std_card(num as int, c) && c.wf()),
        num >= 52 ==> (r matches Err(m) && m@ == out_of_range_msg(num as int)),
{
    if num >= 52 {
        return Err(u64_to_string(num as u64).concat(" is out of range for a valid card"));
    }
    let suit = num / 13;
    let rank = num % 13 + 1;
    let code: u32 = 0x1F0A1 + 0x10 * (suit as u32) + (rank as u32 - 1) + if rank >= 12 {
        1
    } else {
        0
    };
    let glyph = Some(char_from_code(code));
    if rank <= 10 {
        Ok(Card::Pip { glyph, suit: suit_str(suit), number: rank })
    } else {
        Ok(Card::Face { glyph, suit: suit_str(suit), number: rank, face: face_str(rank) })
    }
}

fn joker(num: usize) -> (r: Result<Card, String>)
    ensures
        52 <= num <= 53 ==> (r matches Ok(c) && is_std_or_joker(num as int, c) && c.wf()),
        !(52 <= num <= 53) ==> r is Err,
{
    if num == 52 {
        Ok(Card::Joker { glyph: Some(char_from_code(0x1F0BF)), name: "Black Joker" })
    } else if num == 53 {
        Ok(Card::Joker { glyph: Some(char_from_code(0x1F0CF)), name: "Red Joker" })
    } else {
        Err(String::from_str("Invalid Joker num"))
    }
}

/// Convert a number from 0 to 53 to a Card as a result
pub fn card_or_joker(num: usize) -> (r: Result<Card, String>)
    ensures
        num < 54 ==> (r matches Ok(c) && is_std_or_joker(num as int, c) && c.wf()),
        num >= 54 ==> (r matches Err(m) && m@ == out_of_range_msg(num as int)),
{
    if num < 52 {
        card(num)
    } else if num < 54 {
        joker(num)
    } else {
        Err(u64_to_string(num as u64).concat(" is out of range for a valid card"))
    }
}

/// The whole 52-card deck, in order.
pub fn cards() -> (v: Vec<Card>)
    ensures
        v@.len() == 52,
        forall|i: int| 0 <= i < 52 ==> is_std_card(i, #[trigger] v@[i]) && v@[i].wf(),
{
    let mut v: Vec<Card> = Vec::new();
    let mut num: usize = 0;
    while num < 52
        invariant
            num <= 52,
            v@.len() == num,
            forall|i: int| 0 <= i < num ==> is_std_card(i, #[trigger] v@[i]) && v@[i].wf(),
        decreases 52 - num,
    {
        match card(num) {
            Ok(c) => v.push(c),
            Err(_) => {
                return v;
            },
        }
        num = num + 1;
    }
    v
}

/// The whole 54-card deck with jokers, in order.
pub fn cards_and_jokers() -> (v: Vec<Card>)
    ensures
        v@.len() == 54,
        forall|i: int| 0 <= i < 54 ==> is_std_or_joker(i, #[trigger] v@[i]) && v@[i].wf(),
{
    let mut v: Vec<Card> = Vec::new();
    let mut num: usize = 0;
    while num < 54
        invariant
            num <= 54,
            v@.len() == num,
            forall|i: int| 0 <= i < num ==> is_std_or_joker(i, #[trigger] v@[i]) && v@[i].wf(),
        decreases 54 - num,
    {
        match card_or_joker(num) {
            Ok(c) => v.push(c),
            Err(_) => {
                return v;
            },
        }
        num = num + 1;
    }
    v
}

/// Randomly choose a card from a standard 52 card deck without jokers
pub fn draw_card() -> (c: Card)
    ensures
        exists|num: int| 0 <= num < 52 && is_std_card(num, c),
        c.wf(),
{
    let num = crate::random::rand_below(52);
    match card(num) {
        Ok(c) => c,
        Err(_) => Card::Joker { glyph: None, name: "Black Joker" },
    }
}

/// Randomly choose a card from a standard 52 card deck with jokers
pub fn draw_card_or_joker() -> (c: Card)
    ensures
        exists|num: int| 0 <= num < 54 && is_std_or_joker(num, c),
        c.wf(),
{
    let num = crate::random::rand_below(54);
    match card_or_joker(num) {
        Ok(c) => c,
        Err(_) => Card::Joker { glyph: None, name: "Black Joker" },
    }
}

} // verus!
