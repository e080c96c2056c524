use quikdecision::deck;
use quikdecision::deck::standard;
use quikdecision::deck::tarot;
use quikdecision::deck::Card;
use quikdecision::deck::Deck;
use quikdecision::Command;

struct CardTestData {
    num: usize,
    display: &'static str,
    glyph: char,
    suit: &'static str,
    val: u32,
}

const STD_DATA: [CardTestData; 5] = [
    CardTestData { num: 0, glyph: '\u{1f0a1}', val: 1, suit: "Spades", display: "Ace of Spades" },
    CardTestData {
        num: 13 + 10,
        glyph: '\u{1f0bb}',
        val: 11,
        suit: "Hearts",
        display: "Jack of Hearts",
    },
    CardTestData {
        num: 26 + 2,
        glyph: '\u{1f0c3}',
        val: 3,
        suit: "Diamonds",
        display: "3 of Diamonds",
    },
    CardTestData {
        num: 39 + 11,
        glyph: '\u{1f0dd}',
        val: 12,
        suit: "Clubs",
        display: "Queen of Clubs",
    },
    CardTestData { num: 53, glyph: '\u{1f0cf}', val: 0, suit: "", display: "Red Joker" },
];

const TAROT_DATA: [CardTestData; 7] = [
    CardTestData { num: 0, glyph: '\u{1f0a1}', val: 1, suit: "Swords", display: "Ace of Swords" },
    CardTestData {
        num: 14 + 11,
        glyph: '\u{1f0bc}',
        val: 12,
        suit: "Cups",
        display: "Knight of Cups",
    },
    CardTestData { num: 28 + 2, glyph: '\u{1f0c3}', val: 3, suit: "Coins", display: "3 of Coins" },
    CardTestData {
        num: 42 + 12,
        glyph: '\u{1f0dd}',
        val: 13,
        suit: "Wands",
        display: "Queen of Wands",
    },
    CardTestData { num: 56, glyph: '\u{1f0e0}', val: 0, suit: "", display: "The Fool" },
    CardTestData {
        num: 65,
        glyph: '\u{1f0e9}',
        val: 9,
        suit: "Trumps",
        display: "IX - The Hermit",
    },
    CardTestData {
        num: 77,
        glyph: '\u{1f0f5}',
        val: 21,
        suit: "Trumps",
        display: "XXI - The World",
    },
];

#[test]
fn cards_to_string() {
    for CardTestData { num, display, .. } in STD_DATA.iter() {
        let card = standard::card_or_joker(*num);
        assert!(card.is_ok());
        assert_eq!(card.unwrap().to_string(), display.to_string());
    }
}

#[test]
fn cards_to_glyph() {
    for CardTestData { num, glyph, .. } in STD_DATA.iter() {
        let card = standard::card_or_joker(*num);
        assert!(card.is_ok());
        assert_eq!(card.unwrap().glyph(), Some(*glyph));
    }
}

#[test]
fn cards_to_suit() {
    for CardTestData { num, suit, .. } in STD_DATA.iter() {
        let card = standard::card_or_joker(*num);
        assert!(card.is_ok());
        assert_eq!(card.unwrap().suit(), *suit);
    }
}

#[test]
fn cards_to_value() {
    for CardTestData { num, val, .. } in STD_DATA.iter() {
        let card = standard::card_or_joker(*num);
        assert!(card.is_ok());
        assert_eq!(card.unwrap().value(), *val);
    }
}

#[test]
fn check_command() {
    assert_eq!(deck::command("52-card"), Ok(Command::DrawCard(Deck::Standard52)));
    assert_eq!(deck::command("jokers"), Ok(Command::DrawCard(Deck::Jokers)));
    assert_eq!(deck::command("tarot"), Ok(Command::DrawCard(Deck::Tarot)));
}

#[test]
fn shuffled_standard_deck() {
    let cards = deck::shuffled(&Deck::Standard52);
    assert_eq!(cards.len(), 52);
}

#[test]
fn shuffled_jokered_deck() {
    let cards = deck::shuffled(&Deck::Jokers);
    assert_eq!(cards.len(), 54);
}

#[test]
fn tarot_to_string() {
    for CardTestData { num, display, .. } in TAROT_DATA.iter() {
        let card = tarot::card(*num);
        assert!(card.is_ok());
        assert_eq!(card.unwrap().to_string(), display.to_string());
    }
}

#[test]
fn tarot_to_glyph() {
    for CardTestData { num, glyph, .. } in TAROT_DATA.iter() {
        let card = tarot::card(*num);
        assert!(card.is_ok());
        assert_eq!(card.unwrap().glyph(), Some(*glyph));
    }
}

#[test]
fn tarot_to_suit() {
    for CardTestData { num, suit, .. } in TAROT_DATA.iter() {
        let card = tarot::card(*num);
        assert!(card.is_ok());
        assert_eq!(card.unwrap().suit(), *suit);
    }
}

#[test]
fn tarot_to_value() {
    for CardTestData { num, val, .. } in TAROT_DATA.iter() {
        let card = tarot::card(*num);
        assert!(card.is_ok());
        assert_eq!(card.unwrap().value(), *val);
    }
}

#[test]
fn shuffled_tarot_deck() {
    let cards = deck::shuffled(&Deck::Tarot);
    assert_eq!(cards.len(), 78);
}

#[test]
fn standard_new_cards() {
    assert_eq!(
        standard::card(0),
        Ok(Card::Pip { glyph: Some('\u{1F0A1}'), suit: "Spades", number: 1 })
    );
    assert_eq!(
        standard::card(13 + 10),
        Ok(Card::Face { glyph: Some('\u{1F0BB}'), suit: "Hearts", number: 11, face: "Jack" })
    );
    assert_eq!(
        standard::card(2 * 13 + 2),
        Ok(Card::Pip { glyph: Some('\u{1F0C3}'), suit: "Diamonds", number: 3 })
    );
    assert_eq!(
        standard::card(3 * 13 + 11),
        Ok(Card::Face { glyph: Some('\u{1F0DD}'), suit: "Clubs", number: 12, face: "Queen" })
    );
}

#[test]
fn invalid_cards() {
    assert_eq!(
        standard::card(52),
        Err("52 is out of range for a valid card".to_string())
    );
    assert_eq!(
        standard::card_or_joker(54),
        Err("54 is out of range for a valid card".to_string())
    );
}

#[test]
fn new_jokers() {
    assert_eq!(
        standard::card_or_joker(52),
        Ok(Card::Joker { glyph: Some('\u{1F0BF}'), name: "Black Joker" })
    );
    assert_eq!(
        standard::card_or_joker(53),
        Ok(Card::Joker { glyph: Some('\u{1F0CF}'), name: "Red Joker" })
    );
}

#[test]
fn get_deck_52() {
    let deck = standard::cards();
    assert_eq!(deck.len(), 52);
    assert_eq!(
        deck[0],
        Card::Pip { glyph: Some('\u{1F0A1}'), suit: "Spades", number: 1 }
    );
    assert_eq!(
        deck[51],
        Card::Face { glyph: Some('\u{1F0DE}'), suit: "Clubs", number: 13, face: "King" }
    );
}

#[test]
fn get_deck_jokers() {
    let deck = standard::cards_and_jokers();
    assert_eq!(deck.len(), 54);
    assert_eq!(
        deck[0],
        Card::Pip { glyph: Some('\u{1F0A1}'), suit: "Spades", number: 1 }
    );
    assert_eq!(
        deck[53],
        Card::Joker { glyph: Some('\u{1F0CF}'), name: "Red Joker" }
    );
}

#[test]
fn tarot_new_cards() {
    assert_eq!(
        tarot::card(0),
        Ok(Card::Pip { glyph: Some('\u{1F0A1}'), suit: "Swords", number: 1 })
    );
    assert_eq!(
        tarot::card(14 + 11),
        Ok(Card::Face { glyph: Some('\u{1F0BC}'), suit: "Cups", number: 12, face: "Knight" })
    );
    assert_eq!(
        tarot::card(28 + 2),
        Ok(Card::Pip { glyph: Some('\u{1F0C3}'), suit: "Coins", number: 3 })
    );
    assert_eq!(
        tarot::card(42 + 12),
        Ok(Card::Face { glyph: Some('\u{1F0DD}'), suit: "Wands", number: 13, face: "Queen" })
    );
    assert_eq!(
        tarot::card(56),
        Ok(Card::Joker { glyph: Some('\u{1F0E0}'), name: "The Fool" })
    );
    assert_eq!(
        tarot::card(65),
        Ok(Card::Trump { glyph: Some('\u{1F0E9}'), name: "The Hermit", number: 9 })
    );
    assert_eq!(
        tarot::card(77),
        Ok(Card::Trump { glyph: Some('\u{1F0F5}'), name: "The World", number: 21 })
    );
}

#[test]
fn invalid_card() {
    assert_eq!(
        tarot::card(78),
        Err("78 is out of range for a valid card".to_string())
    );
}

#[test]
fn get_deck() {
    let deck = tarot::cards();
    assert_eq!(deck.len(), 78);
    assert_eq!(
        deck[0],
        Card::Pip { glyph: Some('\u{1F0A1}'), suit: "Swords", number: 1 }
    );
    assert_eq!(
        deck[77],
        Card::Trump { glyph: Some('\u{1F0F5}'), name: "The World", number: 21 }
    );
}
