use quikdecision::decision::Decision;
use quikdecision::dice;
use quikdecision::dice::Expr;
use quikdecision::dice::Roll;
use quikdecision::dice::ScriptedRoller;
use quikdecision::error::QuikError;
use quikdecision::Command;
use quikdecision::Decider;

fn parsed(expr: &str) -> Expr {
    match dice::command(expr.to_string()) {
        Ok(Command::RollDice(e)) => e,
        other => panic!("expected a dice command, got {:?}", other),
    }
}

#[test]
fn command_empty_string() {
    let r = dice::command(String::new());
    assert!(matches!(r, Err(QuikError::DiceMissingExpr)));
    assert_eq!(r.unwrap_err().message(), "Missing dice expression".to_string());
}

#[test]
fn command_simple_roll() {
    assert_eq!(
        dice::command("3d8".into()),
        Ok(Command::RollDice(Expr(vec![Roll::Dice(3, 8)])))
    );
}

#[test]
fn command_all_sides() {
    for i in vec![3, 4, 6, 8, 10, 12, 20, 100] {
        assert_eq!(
            dice::command(format!("1d{}", i)),
            Ok(Command::RollDice(Expr(vec![Roll::Dice(1, i)])))
        );
    }
}

#[test]
fn command_exploding_roll() {
    assert_eq!(
        dice::command("3x6".into()),
        Ok(Command::RollDice(Expr(vec![Roll::ExplodingDice(3, 6)])))
    );
}

#[test]
fn command_multiterm_expresion() {
    assert_eq!(
        dice::command("2d12 + 3x6 + 2".into()),
        Ok(Command::RollDice(Expr(vec![
            Roll::Dice(2, 12),
            Roll::ExplodingDice(3, 6),
            Roll::Incr(2)
        ])))
    );
}

#[test]
fn dice_roll_decision() {
    let d = dice::command("2d12 + 3x6 + 2".into()).unwrap().decide();
    assert!(matches!(d, Decision::AnnotatedNum { .. }));
}

#[test]
fn simple_roll_value() {
    match Expr(vec![Roll::Dice(1, 6)]).decide() {
        Decision::AnnotatedNum { value, extra } => {
            assert!(value >= 1);
            assert!(value <= 6);
            assert!(extra.starts_with("1d6("));
            assert!(extra.ends_with(")"));
        },
        _ => panic!("Wrong decision type"),
    }
}

#[test]
fn explode_roll_value() {
    match Expr(vec![Roll::ExplodingDice(1, 6)]).decide() {
        Decision::AnnotatedNum { value, extra } => {
            assert!(value >= 1);
            assert_ne!(value % 6, 0);
            assert!(extra.starts_with("1x6<"));
            assert!(extra.ends_with(">"));
        },
        _ => panic!("Wrong decision type"),
    }
}

#[test]
fn incr_value() {
    match Expr(vec![Roll::Incr(1)]).decide() {
        Decision::AnnotatedNum { value, extra } => {
            assert_eq!(value, 1);
            assert_eq!(extra, "1".to_string());
        },
        _ => panic!("Wrong decision type"),
    }
}

#[test]
fn multi_roll_value() {
    match Expr(vec![Roll::Dice(3, 6)]).decide() {
        Decision::AnnotatedNum { value, extra } => {
            assert!(value >= 3);
            assert!(value <= 18);
            assert!(extra.starts_with("3d6("));
            assert!(extra.ends_with(")"));
        },
        _ => panic!("Wrong decision type"),
    }
}

#[test]
fn multi_exploding_roll_value() {
    match Expr(vec![Roll::ExplodingDice(3, 6)]).decide() {
        Decision::AnnotatedNum { value, extra } => {
            assert!(value >= 3);
            assert!(extra.starts_with("3x6<"));
            assert!(extra.ends_with(">"));
        },
        _ => panic!("Wrong decision type"),
    }
}

#[test]
fn complex_roll_value() {
    match Expr(vec![
        Roll::Dice(3, 6),
        Roll::Dice(2, 8),
        Roll::ExplodingDice(1, 20),
        Roll::Incr(2),
    ])
    .decide()
    {
        Decision::AnnotatedNum { value, extra } => {
            assert!(value >= 8);
            assert!(extra.starts_with("3d6("));
            assert!(extra.contains(") + 2d8("));
            assert!(extra.contains(") + 1x20<"));
            assert!(extra.contains("> + 2"));
        },
        _ => panic!("Wrong decision type"),
    }
}

#[test]
fn unsupported_sides_rejected() {
    match dice::command("1d7".into()) {
        Err(QuikError::DiceBadExpr(term)) => assert_eq!(term, "1d7".to_string()),
        other => panic!("expected a bad-expression error, got {:?}", other),
    }
}

#[test]
fn oversized_count_rejected() {
    match dice::command("99999999999d6".into()) {
        Err(QuikError::NotANumber(tok)) => assert_eq!(tok, "99999999999".to_string()),
        other => panic!("expected a not-a-number error, got {:?}", other),
    }
}

#[test]
fn oversized_increment_rejected() {
    match dice::command("99999999999".into()) {
        Err(QuikError::NotANumber(tok)) => assert_eq!(tok, "99999999999".to_string()),
        other => panic!("expected a not-a-number error, got {:?}", other),
    }
}

#[test]
fn count_defaults_to_one() {
    assert_eq!(
        dice::command("d6".into()),
        Ok(Command::RollDice(Expr(vec![Roll::Dice(1, 6)])))
    );
    assert_eq!(
        dice::command("x8".into()),
        Ok(Command::RollDice(Expr(vec![Roll::ExplodingDice(1, 8)])))
    );
}

#[test]
fn upper_case_die_letters() {
    assert_eq!(
        dice::command("2D12 + 3X6".into()),
        Ok(Command::RollDice(Expr(vec![
            Roll::Dice(2, 12),
            Roll::ExplodingDice(3, 6)
        ])))
    );
}

#[test]
fn surrounding_whitespace_ignored() {
    assert_eq!(
        dice::command("  3d6  ".into()),
        Ok(Command::RollDice(Expr(vec![Roll::Dice(3, 6)])))
    );
}

#[test]
fn malformed_terms_rejected() {
    assert!(matches!(dice::command("0d6".into()), Err(QuikError::DiceBadExpr(_))));
    assert!(matches!(dice::command("1d07".into()), Err(QuikError::DiceBadExpr(_))));
    assert!(matches!(dice::command("3d6+".into()), Err(QuikError::DiceBadExpr(_))));
    assert!(matches!(dice::command("+3".into()), Err(QuikError::DiceBadExpr(_))));
    assert!(matches!(dice::command("1e6".into()), Err(QuikError::DiceBadExpr(_))));
    assert!(matches!(dice::command("   ".into()), Err(QuikError::DiceBadExpr(_))));
    assert!(matches!(dice::command("0".into()), Err(QuikError::DiceBadExpr(_))));
}

#[test]
fn parse_twice_yields_equal_expressions() {
    let first = parsed("2d12 + 3x6 + 2");
    let second = parsed("2d12 + 3x6 + 2");
    assert_eq!(first, second);
}

#[test]
fn scripted_single_fixed_die() {
    let e = parsed("1d6");
    let mut roller = ScriptedRoller::new(vec![4]);
    let (total, trace) = e.evaluate(&mut roller);
    assert_eq!(total, 4);
    assert_eq!(trace, "1d6(4)".to_string());
}

#[test]
fn scripted_explosion_chain() {
    let e = parsed("1x6");
    let mut roller = ScriptedRoller::new(vec![6, 6, 3]);
    let (total, trace) = e.evaluate(&mut roller);
    assert_eq!(total, 2 * 6 + 3);
    assert_eq!(trace, "1x6<(6!+6!+3)>".to_string());
}

#[test]
fn scripted_compound_expression() {
    let e = parsed("2d12 + 3x6 + 2");
    let mut roller = ScriptedRoller::new(vec![11, 2, 1, 6, 5, 4]);
    let (total, trace) = e.evaluate(&mut roller);
    assert_eq!(total, 13 + 16 + 2);
    assert_eq!(trace, "2d12(11+2) + 3x6<(1) (6!+5) (4)> + 2".to_string());
}

#[test]
fn scripted_fixed_group_trace() {
    let e = parsed("3d6");
    let mut roller = ScriptedRoller::new(vec![2, 5, 1]);
    let (total, trace) = e.evaluate(&mut roller);
    assert_eq!(total, 8);
    assert_eq!(trace, "3d6(2+5+1)".to_string());
}

#[test]
fn dice_api_doc_name() {
    let doc = dice::api_doc();
    assert_eq!(doc.name, "roll");
    assert_eq!(doc.params, vec!["dice expression"]);
}
