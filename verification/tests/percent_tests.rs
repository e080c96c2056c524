use quikdecision::decision::Decision;
use quikdecision::error::QuikError;
use quikdecision::percent;
use quikdecision::percent::Likely;
use quikdecision::Command;
use quikdecision::Decider;

#[test]
fn command_0_percent() {
    assert_eq!(percent::command(0), Err(QuikError::PercentZero));
}

#[test]
fn command_100_percent() {
    assert_eq!(percent::command(100), Err(QuikError::PercentOverflow(100)));
}

#[test]
fn command_gt_100_percent() {
    assert_eq!(percent::command(200), Err(QuikError::PercentOverflow(200)));
}

#[test]
fn command_50_percent() {
    assert_eq!(percent::command(50), Ok(Command::PercentTrue(Likely(50))));
}

#[test]
fn percent_decide_check() {
    let d = percent::command(45).unwrap().decide();
    assert!(matches!(d, Decision::Bool(_)));
}

#[test]
fn percent_test() {
    let decider = Likely(35);
    let choices: usize = (1..=1000)
        .map(|_| decider.decide())
        .filter(|x| match x {
            Decision::Bool(true) => true,
            _ => false,
        })
        .count();
    assert!(choices >= 300);
    assert!(choices <= 400);
}
