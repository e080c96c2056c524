use quikdecision::coin;
use quikdecision::coin::Coin;
use quikdecision::decision::Decision;
use quikdecision::Command;
use quikdecision::Decider;

const NUM_TRIES: u32 = 3;

#[test]
fn coin_command_check() {
    assert_eq!(coin::command(), Ok(Command::CoinFlip(Coin {})));
}

#[test]
fn coin_decide_check() {
    let d = coin::command().unwrap().decide();
    assert!(matches!(d, Decision::Text(_)));
}

#[test]
fn coin_tosses() {
    let expected = ["Heads", "Tails"];

    let coin = Coin {};

    for _ in 1..=NUM_TRIES {
        match coin.decide() {
            Decision::Text(flip) => assert_ne!(expected.iter().find(|&&x| x == flip), None),
            _ => panic!("Wrong decision type"),
        }
    }
}
