use quikdecision::coin;
use quikdecision::decision::Decision;
use quikdecision::iterator::QdIter;
use quikdecision::Command;

#[test]
fn test_create() {
    let cmd = Command::CoinFlip(coin::Coin {});
    let ocmd = Command::CoinFlip(coin::Coin {});
    assert_eq!(cmd.iter(), QdIter::new(&ocmd));
}

#[test]
fn test_iter() {
    let cmd = Command::CoinFlip(coin::Coin {});
    let mut it = cmd.iter();
    match it.next() {
        Some(Decision::Text(_)) => assert!(true, "Correct type"),
        Some(_) => panic!("Wrong Decision type"),
        None => panic!("No value returned"),
    }
}
