use quikdecision::decision::Decision;
use quikdecision::error::QuikError;
use quikdecision::select;
use quikdecision::select::Choices;
use quikdecision::Command;
use quikdecision::Decider;

#[test]
fn select_command_empty_vector() {
    assert_eq!(select::command(Vec::new()), Err(QuikError::ListEmpty));
}

#[test]
fn select_command_single_string() {
    assert_eq!(select::command(vec!["fred".into()]), Err(QuikError::ListOne));
}

#[test]
fn select_decide_check() {
    let names: Vec<String> =
        vec!["david".into(), "mark".into(), "kirsten".into(), "connie".into()];
    let d = select::command(names.clone()).unwrap().decide();
    assert!(matches!(d, Decision::Text(_)));
}

#[test]
fn select_command_string_list() {
    let names: Vec<String> =
        vec!["david".into(), "mark".into(), "kirsten".into(), "connie".into()];
    assert_eq!(
        select::command(names.clone()),
        Ok(Command::Selection(Choices(names)))
    );
}

#[test]
fn select_selection_decision() {
    let names = vec![
        "david".to_string(),
        "mark".to_string(),
        "kirsten".to_string(),
        "connie".to_string(),
    ];
    match select::command(names.clone()).unwrap().decide() {
        Decision::Text(guess) => assert!(names.iter().any(|s| *s == guess)),
        _ => panic!("Unexpected Decision"),
    }
}
