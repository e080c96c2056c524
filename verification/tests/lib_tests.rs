use quikdecision::coin;
use quikdecision::deck;
use quikdecision::error::QuikError;
use quikdecision::help;
use quikdecision::oracle;
use quikdecision::percent;
use quikdecision::pick;
use quikdecision::select;
use quikdecision::shuffle;
use quikdecision::version;

#[test]
fn version_string() {
    assert_eq!(version(), "0.6.0");
}

#[test]
fn pick_one_returns_a_choice() {
    let choices: Vec<String> = vec!["red".into(), "green".into(), "blue".into()];
    for _ in 0..10 {
        let picked = quikdecision::pick_one(&choices);
        assert!(choices.contains(&picked));
    }
}

#[test]
fn api_doc_names() {
    assert_eq!(coin::api_doc().name, "coin");
    assert_eq!(deck::api_doc().name, "deck");
    assert_eq!(oracle::api_doc().name, "oracle");
    assert_eq!(percent::api_doc().name, "percent");
    assert_eq!(pick::api_doc().name, "pick");
    assert_eq!(select::api_doc().name, "select");
    assert_eq!(shuffle::api_doc().name, "shuffle");
}

#[test]
fn hint_entries() {
    let hints = help::hint();
    assert_eq!(hints.len(), 2);
    assert_eq!(hints[0].cmd, "help");
    assert_eq!(hints[1].cmd, "man");
}

#[test]
fn error_messages() {
    assert_eq!(
        QuikError::UnrecognizedDeck("pinochle".to_string()).message(),
        "Unrecognized deck type pinochle".to_string()
    );
    assert_eq!(
        QuikError::NotANumber("12junk".to_string()).message(),
        "Non-number somehow passed parsing 12junk".to_string()
    );
    assert_eq!(QuikError::DiceMissingExpr.message(), "Missing dice expression".to_string());
    assert_eq!(
        QuikError::DiceBadExpr("1d7".to_string()).message(),
        "Failed parsing dice expression 1d7".to_string()
    );
    assert_eq!(QuikError::DiceBadSides.message(), "No sides specified".to_string());
    assert_eq!(
        QuikError::DiceBadType("q".to_string()).message(),
        "Unrecognized die type q".to_string()
    );
    assert_eq!(QuikError::UnparseableTerm.message(), "Unparseable term".to_string());
    assert_eq!(QuikError::PercentZero.message(), "percent arg cannot be 0".to_string());
    assert_eq!(
        QuikError::PercentOverflow(200).message(),
        "percent arg cannot be 100 percent or greater 200".to_string()
    );
    assert_eq!(
        QuikError::EmptyRange.message(),
        "High parameter cannot equal low parameter".to_string()
    );
    assert_eq!(QuikError::ListEmpty.message(), "Missing required strings".to_string());
    assert_eq!(QuikError::ListOne.message(), "Must supply at least two strings".to_string());
}

#[test]
fn unknown_deck_rejected() {
    match deck::command("pinochle") {
        Err(QuikError::UnrecognizedDeck(name)) => assert_eq!(name, "pinochle".to_string()),
        other => panic!("expected an unrecognized-deck error, got {:?}", other),
    }
}
