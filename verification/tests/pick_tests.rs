use quikdecision::decision::Decision;
use quikdecision::error::QuikError;
use quikdecision::pick;
use quikdecision::pick::Picker;
use quikdecision::Command;
use quikdecision::Decider;

const NUM_TRIES: u32 = 3;

#[test]
fn command_with_equal_params() {
    assert_eq!(pick::command(1, 1), Err(QuikError::EmptyRange));
}

#[test]
fn command_args_in_wrong_order() {
    assert_eq!(
        pick::command(30, 20),
        Ok(Command::PickNumber(Picker { low: 20, high: 30 }))
    );
}

#[test]
fn command_args_in_correct_order() {
    assert_eq!(
        pick::command(10, 20),
        Ok(Command::PickNumber(Picker { low: 10, high: 20 }))
    );
}

#[test]
fn pick_decide_check() {
    let d = pick::command(1, 10).unwrap().decide();
    assert!(d.is_num());
}

#[test]
fn choose_a_small_number() {
    let expected = [1, 2];

    let decider = Picker { low: 1, high: 2 };
    for _ in 1..=NUM_TRIES {
        match decider.decide() {
            Decision::Num(choice) => assert_ne!(expected.iter().find(|&&x| x == choice), None),
            _ => panic!("Wrong decision type"),
        }
    }
}

#[test]
fn choose_a_larger_number() {
    let low: i32 = 2;
    let high: i32 = 10;
    let expected = [2, 3, 4, 5, 6, 7, 8, 9, 10];

    let decider = Picker { low, high };
    for _ in 1..=NUM_TRIES {
        match decider.decide() {
            Decision::Num(choice) => assert_ne!(expected.iter().find(|&&x| x == choice), None),
            _ => panic!("Wrong decision type"),
        }
    }
}
