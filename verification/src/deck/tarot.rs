//! The historical 78-card tarot deck.
//!
//! Cards are numbered 0 to 77: fourteen ranks per suit in the order
//! Swords, Cups, Coins, Wands, then the Fool, then the 21 trumps. The
//! Unicode playing-card block assigns each card a glyph at a fixed
//! offset; the minor suits keep the knight, and the trumps follow in one
//! contiguous run.
use vstd::prelude::*;
use vstd::string::StringExecFns;

use crate::deck::char_from_code;
use crate::deck::Card;
use crate::numtext::dec_str;
use crate::numtext::u64_to_string;

verus! {

/// The suit of card `num`, by deck order.
pub open spec fn tarot_suit(i: int) -> Seq<char> {
    if i == 0 {
        "Swords"@
    } else if i == 1 {
        "Cups"@
    } else if i == 2 {
        "Coins"@
    } else {
        "Wands"@
    }
}

/// The name of a court rank.
pub open spec fn tarot_face(rank: int) -> Seq<char> {
    if rank == 11 {
        "Jack"@
    } else if rank == 12 {
        "Knight"@
    } else if rank == 13 {
        "Queen"@
    } else {
        "King"@
    }
}

/// The name of trump `value` (1 to 21); the Fool, value 0, is its own
/// card.
pub open spec fn trump_name(value: int) -> Seq<char> {
    if value == 0 {
        "The Fool"@
    } else if value == 1 {
        "The Magician"@
    } else if value == 2 {
        "The High Priestess"@
    } else if value == 3 {
        "The Empress"@
    } else if value == 4 {
        "The Emperor"@
    } else if value == 5 {
        "The Hierophant"@
    } else if value == 6 {
        "The Lovers"@
    } else if value == 7 {
        "The Chariot"@
    } else if value == 8 {
        "Justice"@
    } else if value == 9 {
        "The Hermit"@
    } else if value == 10 {
        "Wheel of Fortune"@
    } else if value == 11 {
        "Strength"@
    } else if value == 12 {
        "The Hanged Man"@
    } else if value == 13 {
        "Death"@
    } else if value == 14 {
        "Temperance"@
    } else if value == 15 {
        "The Devil"@
    } else if value == 16 {
        "The Tower"@
    } else if value == 17 {
        "The Star"@
    } else if value == 18 {
        "The Moon"@
    } else if value == 19 {
        "The Sun"@
    } else if value == 20 {
        "Judgement"@
    } else {
        "The World"@
    }
}

/// The Unicode code point of card `num`: one row of sixteen per minor
/// suit, knight included, then the trumps in one run.
pub open spec fn tarot_glyph(num: int) -> int {
    if num < 56 {
        0x1F0A1 + 0x10 * (num / 14) + num % 14
    } else {
        0x1F0E0 + (num - 56)
    }
}

/// `c` is card `num` of the tarot deck.
pub open spec fn is_tarot_card(num: int, c: Card) -> bool {
    if num < 56 {
        let suit = tarot_suit(num / 14);
        let rank = num % 14 + 1;
        if rank <= 10 {
            c matches Card::Pip { glyph, suit: s, number } && glyph matches Some(g) && g as u32
                == tarot_glyph(num) && s@ == suit && number == rank
        } else {
            c matches Card::Face { glyph, suit: s, number, face } && glyph matches Some(g) && g
                as u32 == tarot_glyph(num) && s@ == suit && number == rank && face@ == tarot_face(
                rank,
            )
        }
    } else if num == 56 {
        c matches Card::Joker { glyph, name } && glyph matches Some(g) && g as u32 == tarot_glyph(
            num,
        ) && name@ == trump_name(0)
    } else {
        c matches Card::Trump { glyph, name, number } && glyph matches Some(g) && g as u32
            == tarot_glyph(num) && name@ == trump_name(num - 56) && number == num - 56
    }
}

/// The message given for a number with no card.
pub open spec fn out_of_range_msg(num: int) -> Seq<char> {
    dec_str(num) + " is out of range for a valid card"@
}

fn suit_str(i: usize) -> (r: &'static str)
    requires
        i < 4,
    ensures
        r@ == tarot_suit(i as int),
{
    if i == 0 {
        "Swords"
    } else if i == 1 {
        "Cups"
    } else if i == 2 {
        "Coins"
    } else {
        "Wands"
    }
}

fn face_str(rank: usize) -> (r: &'static str)
    requires
        11 <= rank <= 14,
    ensures
        r@ == tarot_face(rank as int),
{
    if rank == 11 {
        "Jack"
    } else if rank == 12 {
        "Knight"
    } else if rank == 13 {
        "Queen"
    } else {
        "King"
    }
}

fn trump_str(value: usize) -> (r: &'static str)
    requires
        value <= 21,
    ensures
        r@ == trump_name(value as int),
{
    if value == 0 {
        "The Fool"
    } else if value == 1 {
        "The Magician"
    } else if value == 2 {
        "The High Priestess"
    } else if value == 3 {
        "The Empress"
    } else if value == 4 {
        "The Emperor"
    } else if value == 5 {
        "The Hierophant"
    } else if value == 6 {
        "The Lovers"
    } else if value == 7 {
        "The Chariot"
    } else if value == 8 {
        "Justice"
    } else if value == 9 {
        "The Hermit"
    } else if value == 10 {
        "Wheel of Fortune"
    } else if value == 11 {
        "Strength"
    } else if value == 12 {
        "The Hanged Man"
    } else if value == 13 {
        "Death"
    } else if value == 14 {
        "Temperance"
    } else if value == 15 {
        "The Devil"
    } else if value == 16 {
        "The Tower"
    } else if value == 17 {
        "The Star"
    } else if value == 18 {
        "The Moon"
    } else if value == 19 {
        "The Sun"
    } else if value == 20 {
        "Judgement"
    } else {
        "The World"
    }
}

fn minor_card(num: usize) -> (r: Card)
    requires
        num < 56,
    ensures
        is_tarot_card(num as int, r),
        r.wf(),
{
    let suit = num / 14;
    let rank = num % 14 + 1;
    let code: u32 = 0x1F0A1 + 0x10 * (suit as u32) + (num as u32 % 14);
    let glyph = Some(char_from_code(code));
    if rank <= 10 {
        Card::Pip { glyph, suit: suit_str(suit), number: rank }
    } else {
        Card::Face { glyph, suit: suit_str(suit), number: rank, face: face_str(rank) }
    }
}

fn trump_card(num: usize) -> (r: Card)
    requires
        56 <= num <= 77,
    ensures
        is_tarot_card(num as int, r),
        r.wf(),
{
    let value = num - 56;
    let code: u32 = 0x1F0E0 + (value as u32);
    let glyph = Some(char_from_code(code));
    if value == 0 {
        Card::Joker { glyph, name: trump_str(0) }
    } else {
        Card::Trump { glyph, name: trump_str(value), number: value }
    }
}

/// Convert a number from 0 to 77 into a Tarot Card as a Result
pub fn card(num: usize) -> (r: Result<Card, String>)
    ensures
        num < 78 ==> (r matches Ok(c) && is_tarot_card(num as int, c) && c.wf()),
        num >= 78 ==> (r matches Err(m) && m@ == out_of_range_msg(num as int)),
{
    if num < 56 {
        Ok(minor_card(num))
    } else if num < 78 {
        Ok(trump_card(num))
    } else {
        Err(u64_to_string(num as u64).concat(" is out of range for a valid card"))
    }
}

/// The whole 78-card deck, in order.
pub fn cards() -> (v: Vec<Card>)
    ensures
        v@.len() == 78,
        forall|i: int| 0 <= i < 78 ==> is_tarot_card(i, #[trigger] v@[i]) && v@[i].wf(),
{
    let mut v: Vec<Card> = Vec::new();
    let mut num: usize = 0;
    while num < 78
        invariant
            num <= 78,
            v@.len() == num,
            forall|i: int| 0 <= i < num ==> is_tarot_card(i, #[trigger] v@[i]) && v@[i].wf(),
        decreases 78 - num,
    {
        match card(num) {
            Ok(c) => v.push(c),
            Err(_) => {
                return v;
            },
        }
        num = num + 1;
    }
    v
}

/// Randomly select a Tarot Card
pub fn draw_card() -> (c: Card)
    ensures
        exists|num: int| 0 <= num < 78 && is_tarot_card(num, c),
        c.wf(),
{
    let num = crate::random::rand_below(78);
    match card(num) {
        Ok(c) => c,
        Err(_) => Card::Joker { glyph: None, name: "The Fool" },
    }
}

} // verus!
