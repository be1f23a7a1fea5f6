use shortcut_hero::actions::{
    action_result_str, input_tag_str, one_str, parse_step, parse_step_relative, Action,
    ActionOutcome, CoreAction, ShortcutResult,
};
use shortcut_hero::errors::EngineError;
use shortcut_hero::vars::VariableStore;

#[test]
fn set_variable_input_takes_raw_value() {
    // the pseudo-variable `input` takes the value untouched: the tag
    // inside it is not substituted
    let mut vars = VariableStore::new();
    let r = CoreAction::set_variable("current", &mut vars, "INPUT", "{{input}}-x").unwrap();
    assert!(matches!(r, ShortcutResult::Success(s) if s == "{{input}}-x"));
    assert_eq!(vars.count(), 0);
}

#[test]
fn set_variable_stores_resolved_value_under_lowercased_name() {
    let mut vars = VariableStore::new();
    let r = CoreAction::set_variable("VAL", &mut vars, "X", "got {{input}}").unwrap();
    assert!(matches!(r, ShortcutResult::Success(s) if s == "VAL"));
    assert_eq!(vars.get("x").unwrap(), "got VAL");
}

#[test]
fn set_variable_replaces_existing_binding() {
    let mut vars = VariableStore::new();
    CoreAction::set_variable("", &mut vars, "city", "Bordeaux").unwrap();
    CoreAction::set_variable("", &mut vars, "City", "Lyon").unwrap();
    assert_eq!(vars.count(), 1);
    assert_eq!(vars.get("city").unwrap(), "Lyon");
}

#[test]
fn delete_variable_input_clears_the_register() {
    let mut vars = VariableStore::new();
    let r = CoreAction::delete_variable("abc", &mut vars, "Input").unwrap();
    assert!(matches!(r, ShortcutResult::Success(s) if s.is_empty()));
}

#[test]
fn delete_variable_removes_binding_case_insensitively() {
    let mut vars = VariableStore::new();
    CoreAction::set_variable("", &mut vars, "key", "v").unwrap();
    let r = CoreAction::delete_variable("abc", &mut vars, "KEY").unwrap();
    assert!(matches!(r, ShortcutResult::Success(s) if s == "abc"));
    assert!(vars.get("key").is_none());
}

#[test]
fn delete_absent_variable_is_a_no_op() {
    let mut vars = VariableStore::new();
    let r = CoreAction::delete_variable("abc", &mut vars, "ghost").unwrap();
    assert!(matches!(r, ShortcutResult::Success(s) if s == "abc"));
    assert_eq!(vars.count(), 0);
}

#[test]
fn increment_unset_variable_seeds_it_with_the_amount() {
    let mut vars = VariableStore::new();
    CoreAction::increment_variable("", &mut vars, "counter", "3").unwrap();
    assert_eq!(vars.get("counter").unwrap(), "3");
    CoreAction::increment_variable("", &mut vars, "counter", "-5").unwrap();
    assert_eq!(vars.get("counter").unwrap(), "-2");
}

#[test]
fn increment_looks_up_lowercased_but_stores_name_as_given() {
    let mut vars = VariableStore::new();
    CoreAction::set_variable("", &mut vars, "cnt", "10").unwrap();
    CoreAction::increment_variable("", &mut vars, "CNT", "5").unwrap();
    // the sum is stored under the name exactly as given, so the old
    // lowercase binding stays beside it
    assert_eq!(vars.get("CNT").unwrap(), "15");
    assert_eq!(vars.get("cnt").unwrap(), "10");
}

#[test]
fn increment_non_integer_existing_value_stores_the_amount() {
    let mut vars = VariableStore::new();
    CoreAction::set_variable("", &mut vars, "x", "abc").unwrap();
    CoreAction::increment_variable("", &mut vars, "x", "4").unwrap();
    assert_eq!(vars.get("x").unwrap(), "4");
}

#[test]
fn increment_resolves_the_amount_template() {
    let mut vars = VariableStore::new();
    CoreAction::set_variable("", &mut vars, "step", "7").unwrap();
    CoreAction::increment_variable("", &mut vars, "total", "{{step}}").unwrap();
    assert_eq!(vars.get("total").unwrap(), "7");
}

#[test]
fn increment_with_bad_amount_is_fatal() {
    let mut vars = VariableStore::new();
    let r = CoreAction::increment_variable("", &mut vars, "x", "much");
    assert!(matches!(
        r,
        Err(EngineError::InvalidAmount { amount }) if amount == "much"
    ));
}

#[test]
fn increment_overflow_is_fatal() {
    let mut vars = VariableStore::new();
    CoreAction::increment_variable("", &mut vars, "x", "-9223372036854775808").unwrap();
    assert_eq!(vars.get("x").unwrap(), "-9223372036854775808");
    let r = CoreAction::increment_variable("", &mut vars, "x", "-1");
    assert!(matches!(r, Err(EngineError::AmountOverflow)));
    assert_eq!(vars.get("x").unwrap(), "-9223372036854775808");
}

#[test]
fn go_to_step_resolves_and_parses_the_target() {
    let mut vars = VariableStore::new();
    CoreAction::set_variable("", &mut vars, "target", "4").unwrap();
    let r = CoreAction::go_to_step("in", &vars, "{{target}}").unwrap();
    assert!(matches!(
        r,
        ShortcutResult::GoToStep { output, step: 4 } if output == "in"
    ));
}

#[test]
fn go_to_step_with_bad_target_is_fatal() {
    let vars = VariableStore::new();
    let r = CoreAction::go_to_step("in", &vars, "four");
    assert!(matches!(
        r,
        Err(EngineError::InvalidStep { step }) if step == "four"
    ));
}

#[test]
fn go_to_step_relative_reads_sign_and_magnitude() {
    let vars = VariableStore::new();
    let r = CoreAction::go_to_step_relative("in", &vars, "-2").unwrap();
    assert!(matches!(
        r,
        ShortcutResult::GoToStepRelative {
            step: 2,
            sign_is_positive: false,
            ..
        }
    ));
}

#[test]
fn if_else_takes_the_true_branch() {
    let vars = VariableStore::new();
    let r = CoreAction::if_else("in", &vars, "str_equals", "a", "a", "3", "7").unwrap();
    assert!(matches!(r, ShortcutResult::GoToStep { step: 3, .. }));
}

#[test]
fn if_else_takes_the_false_branch() {
    let vars = VariableStore::new();
    let r = CoreAction::if_else("in", &vars, "str_equals", "a", "b", "3", "7").unwrap();
    assert!(matches!(r, ShortcutResult::GoToStep { step: 7, .. }));
}

#[test]
fn if_else_checks_both_targets_before_evaluating() {
    // even the branch that would not be taken must parse
    let vars = VariableStore::new();
    let r = CoreAction::if_else("in", &vars, "str_equals", "a", "a", "3", "bogus");
    assert!(matches!(
        r,
        Err(EngineError::InvalidStep { step }) if step == "bogus"
    ));
}

#[test]
fn if_else_relative_picks_the_branch_sign() {
    let vars = VariableStore::new();
    let r =
        CoreAction::if_else_relative("in", &vars, "str_is_empty", "", "", "-2", "+1").unwrap();
    assert!(matches!(
        r,
        ShortcutResult::GoToStepRelative {
            step: 2,
            sign_is_positive: false,
            ..
        }
    ));
    let r =
        CoreAction::if_else_relative("in", &vars, "str_is_not_empty", "", "", "-2", "+1").unwrap();
    assert!(matches!(
        r,
        ShortcutResult::GoToStepRelative {
            step: 1,
            sign_is_positive: true,
            ..
        }
    ));
}

#[test]
fn end_program_carries_the_input() {
    let r = CoreAction::end_program("final").unwrap();
    assert!(matches!(r, ShortcutResult::EndProgram(s) if s == "final"));
}

#[test]
fn parse_step_accepts_plain_and_signed_positive() {
    assert!(matches!(parse_step("7"), Ok(7)));
    assert!(matches!(parse_step("+3"), Ok(3)));
    assert!(matches!(parse_step("007"), Ok(7)));
}

#[test]
fn parse_step_rejects_non_integers() {
    assert!(matches!(
        parse_step("x"),
        Err(EngineError::InvalidStep { step }) if step == "x"
    ));
    assert!(matches!(
        parse_step("-1"),
        Err(EngineError::InvalidStep { .. })
    ));
    assert!(matches!(parse_step(""), Err(EngineError::InvalidStep { .. })));
}

#[test]
fn parse_step_relative_reads_direction_from_any_minus() {
    assert!(matches!(parse_step_relative("-2"), Ok((2, false))));
    assert!(matches!(parse_step_relative("+1"), Ok((1, true))));
    assert!(matches!(parse_step_relative("3"), Ok((3, true))));
    // every sign character is stripped, wherever it stands
    assert!(matches!(parse_step_relative("5-3"), Ok((53, false))));
}

#[test]
fn parse_step_relative_rejects_signless_garbage() {
    assert!(matches!(
        parse_step_relative(""),
        Err(EngineError::InvalidStep { .. })
    ));
    assert!(matches!(
        parse_step_relative("+-"),
        Err(EngineError::InvalidStep { .. })
    ));
    assert!(matches!(
        parse_step_relative("x-1"),
        Err(EngineError::InvalidStep { .. })
    ));
}

#[test]
fn action_run_dispatches_state_only_instructions() {
    let mut vars = VariableStore::new();
    let action = Action::SetVariable {
        name: String::from("k"),
        value: String::from("v"),
    };
    let r = action.run("in", &mut vars).unwrap();
    match r {
        ActionOutcome::Signal(ShortcutResult::Success(s)) => assert_eq!(s, "in"),
        other => panic!("expected Success signal, got {:?}", other),
    }
    assert_eq!(vars.get("k").unwrap(), "v");
}

#[test]
fn default_parameter_texts() {
    assert_eq!(action_result_str(), "Action Result");
    assert_eq!(input_tag_str(), "{{input}}");
    assert_eq!(one_str(), "1");
}
