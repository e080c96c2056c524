use quikdecision::decision::Decision;
use quikdecision::error::QuikError;
use quikdecision::shuffle;
use quikdecision::shuffle::Choices;
use quikdecision::Command;
use quikdecision::Decider;

#[test]
fn shuffle_command_empty_vector() {
    assert_eq!(shuffle::command(Vec::new()), Err(QuikError::ListEmpty));
}

#[test]
fn shuffle_command_single_string() {
    assert_eq!(shuffle::command(vec!["fred".into()]), Err(QuikError::ListOne));
}

#[test]
fn shuffle_decide_check() {
    let names: Vec<String> =
        vec!["david".into(), "mark".into(), "kirsten".into(), "connie".into()];
    let d = shuffle::command(names.clone()).unwrap().decide();
    assert!(matches!(d, Decision::List(_)));
}

#[test]
fn shuffle_command_string_list() {
    let names: Vec<String> =
        vec!["david".into(), "mark".into(), "kirsten".into(), "connie".into()];
    assert_eq!(
        shuffle::command(names.clone()),
        Ok(Command::Shuffle(Choices(names)))
    );
}

#[test]
fn shuffle_selection_decision() {
    let names = vec![
        "david".to_string(),
        "mark".to_string(),
        "kirsten".to_string(),
        "connie".to_string(),
    ];
    match shuffle::command(names.clone()).unwrap().decide() {
        Decision::List(guesses) => {
            assert!(guesses.len() == names.len());
            assert!(guesses.iter().all(|g| names.contains(&g)));
            assert!(names.iter().all(|g| guesses.contains(&g)));
        },
        _ => panic!("Unexpected Decision"),
    }
}
