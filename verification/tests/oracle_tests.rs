use quikdecision::decision::Decision;
use quikdecision::oracle;
use quikdecision::oracle::Oracle;
use quikdecision::Command;
use quikdecision::Decider;

#[test]
fn oracle_command_check() {
    assert_eq!(oracle::command(), Ok(Command::Oracle(Oracle {})));
}

#[test]
fn decision_check() {
    let d = Command::Oracle(Oracle {}).decide();
    assert!(matches!(d, Decision::LabelledText { .. }));
}
