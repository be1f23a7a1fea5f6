use shortcut_hero::actions::CoreAction;
use shortcut_hero::errors::EngineError;
use shortcut_hero::evaluation::{
    evaluate_condition, replace_variables_tag, replace_variables_tag_vec, NumberOperator,
    StringComparison, StringOperator,
};
use shortcut_hero::numeric::{compare_numbers, parse_number, NumOrder};
use shortcut_hero::vars::VariableStore;

#[test]
fn str_contains_finds_a_substring() {
    assert_eq!(
        evaluate_condition("str_contains", "hello world", "wor").unwrap(),
        true
    );
    assert_eq!(
        evaluate_condition("str_contains", "hello world", "word").unwrap(),
        false
    );
}

#[test]
fn str_is_empty_considers_only_the_first_operand() {
    assert_eq!(
        evaluate_condition("str_is_empty", "", "whatever").unwrap(),
        true
    );
    assert_eq!(evaluate_condition("str_is_empty", "x", "").unwrap(), false);
}

#[test]
fn string_operators_compare_text() {
    assert_eq!(evaluate_condition("str_equals", "ab", "ab").unwrap(), true);
    assert_eq!(
        evaluate_condition("str_not_equals", "ab", "ab").unwrap(),
        false
    );
    assert_eq!(
        evaluate_condition("str_not_contains", "abc", "z").unwrap(),
        true
    );
    assert_eq!(
        evaluate_condition("str_starts_with", "abcdef", "abc").unwrap(),
        true
    );
    assert_eq!(
        evaluate_condition("str_starts_with", "abcdef", "bcd").unwrap(),
        false
    );
    assert_eq!(
        evaluate_condition("str_ends_with", "abcdef", "def").unwrap(),
        true
    );
    assert_eq!(
        evaluate_condition("str_ends_with", "abcdef", "abcdefg").unwrap(),
        false
    );
    assert_eq!(
        evaluate_condition("str_is_not_empty", "x", "").unwrap(),
        true
    );
}

#[test]
fn string_comparison_is_not_numeric() {
    // text comparison, not number comparison: "3" and "3.0" differ
    assert_eq!(evaluate_condition("str_equals", "3", "3.0").unwrap(), false);
}

#[test]
fn numeric_ge_accepts_integer_against_decimal() {
    assert_eq!(evaluate_condition(">=", "3", "3.0").unwrap(), true);
}

#[test]
fn numeric_operand_that_does_not_parse_is_fatal() {
    let r = evaluate_condition(">=", "abc", "1");
    assert!(matches!(
        r,
        Err(EngineError::InvalidNumber { operand }) if operand == "abc"
    ));
    let r = evaluate_condition("<", "1", "x2");
    assert!(matches!(
        r,
        Err(EngineError::InvalidNumber { operand }) if operand == "x2"
    ));
}

#[test]
fn unknown_operator_is_fatal_and_names_the_operator() {
    let r = evaluate_condition("frobnicate", "1", "2");
    assert!(matches!(
        r,
        Err(EngineError::UnknownOperation { operation }) if operation == "frobnicate"
    ));
}

#[test]
fn unknown_operator_is_reported_whatever_the_operands_hold() {
    // the operator token is recognized before the operands are parsed
    let r = evaluate_condition("frobnicate", "x", "2");
    assert!(matches!(
        r,
        Err(EngineError::UnknownOperation { operation }) if operation == "frobnicate"
    ));
}

#[test]
fn numeric_operator_reports_the_first_bad_operand() {
    let r = evaluate_condition("<=", "x", "y");
    assert!(matches!(
        r,
        Err(EngineError::InvalidNumber { operand }) if operand == "x"
    ));
}

#[test]
fn numeric_comparisons_are_exact() {
    assert_eq!(evaluate_condition("==", "-0", "0").unwrap(), true);
    assert_eq!(evaluate_condition("==", "0.50", ".5").unwrap(), true);
    assert_eq!(evaluate_condition("==", "1.", "1").unwrap(), true);
    assert_eq!(evaluate_condition("!=", "0.5", ".5").unwrap(), false);
    assert_eq!(evaluate_condition("<", "-2", "1").unwrap(), true);
    assert_eq!(evaluate_condition("<", "-2", "-3").unwrap(), false);
    assert_eq!(evaluate_condition(">", "10", "9.99").unwrap(), true);
    assert_eq!(evaluate_condition(">", "0.1", "0.2").unwrap(), false);
    assert_eq!(evaluate_condition("<=", "2.5", "2.50").unwrap(), true);
    assert_eq!(evaluate_condition(">=", "-1.25", "-1.3").unwrap(), true);
}

#[test]
fn numeric_grammar_has_no_exponent_form() {
    // decimal literals only: scientific notation is a parse error
    let r = evaluate_condition("==", "1e3", "1000");
    assert!(matches!(r, Err(EngineError::InvalidNumber { .. })));
}

#[test]
fn parse_number_reads_signs_dots_and_rejects_garbage() {
    assert!(parse_number("12.5").is_some());
    assert!(parse_number("-0.5").is_some());
    assert!(parse_number("+.5").is_some());
    assert!(parse_number("7.").is_some());
    assert!(parse_number(".").is_none());
    assert!(parse_number("").is_none());
    assert!(parse_number("1.2.3").is_none());
    assert!(parse_number("--1").is_none());
    assert!(parse_number("1x").is_none());
}

#[test]
fn compare_numbers_orders_by_value() {
    let a = parse_number("0012.500").unwrap();
    let b = parse_number("12.5").unwrap();
    assert!(matches!(compare_numbers(&a, &b), NumOrder::Equal));
    let a = parse_number("-3").unwrap();
    let b = parse_number("2.5").unwrap();
    assert!(matches!(compare_numbers(&a, &b), NumOrder::Less));
    let a = parse_number("100").unwrap();
    let b = parse_number("99.999").unwrap();
    assert!(matches!(compare_numbers(&a, &b), NumOrder::Greater));
    let a = parse_number("-1.5").unwrap();
    let b = parse_number("-1.25").unwrap();
    assert!(matches!(compare_numbers(&a, &b), NumOrder::Less));
}

#[test]
fn replace_tags_resolves_input_and_variables() {
    let mut vars = VariableStore::new();
    CoreAction::set_variable("", &mut vars, "name", "World").unwrap();
    let r = replace_variables_tag("{{name}}, {{input}}", "hi", &vars);
    assert_eq!(r, "World, hi");
}

#[test]
fn replace_tags_uses_lowercased_variable_names() {
    let mut vars = VariableStore::new();
    CoreAction::set_variable("", &mut vars, "ABC", "v").unwrap();
    // the tag is the lowercased name; the uppercase spelling stays put
    assert_eq!(replace_variables_tag("{{abc}}", "", &vars), "v");
    assert_eq!(replace_variables_tag("{{ABC}}", "", &vars), "{{ABC}}");
}

#[test]
fn replace_tags_makes_one_pass_per_tag() {
    let mut vars = VariableStore::new();
    CoreAction::set_variable("", &mut vars, "x", "{{x}}").unwrap();
    // a value holding its own tag is not substituted again
    assert_eq!(replace_variables_tag("{{x}}", "", &vars), "{{x}}");
}

#[test]
fn replace_tags_replaces_every_occurrence() {
    let mut vars = VariableStore::new();
    CoreAction::set_variable("", &mut vars, "a", "-").unwrap();
    assert_eq!(replace_variables_tag("{{a}}x{{a}}y{{a}}", "", &vars), "-x-y-");
}

#[test]
fn replace_tags_vec_maps_each_element() {
    let mut vars = VariableStore::new();
    CoreAction::set_variable("", &mut vars, "who", "you").unwrap();
    let input = vec![
        String::from("hey {{who}}"),
        String::from("{{input}}"),
        String::from("plain"),
    ];
    let r = replace_variables_tag_vec(&input, "me", &vars);
    assert_eq!(r, vec!["hey you", "me", "plain"]);
}

#[test]
fn string_comparison_evaluates_its_operands() {
    let c = StringComparison::Contains {
        a: String::from("hello world"),
        b: String::from("wor"),
    };
    assert!(c.evaluate());
    let c = StringComparison::EndsWith {
        a: String::from("abc"),
        b: String::from("abcd"),
    };
    assert!(!c.evaluate());
    let c = StringComparison::IsEmpty {
        a: String::from(""),
    };
    assert!(c.evaluate());
}

#[test]
fn string_comparison_serializes_to_token_and_operands() {
    let s = StringComparison::NotEquals {
        a: String::from("x"),
        b: String::from("y"),
    }
    .to_serialized();
    assert_eq!(s.operation, "string_not_equals");
    assert_eq!(s.a, "x");
    assert_eq!(s.b, "y");
    let s = StringComparison::IsNotEmpty {
        a: String::from("x"),
    }
    .to_serialized();
    assert_eq!(s.operation, "string_is_not_empty");
    assert_eq!(s.a, "x");
    assert_eq!(s.b, "");
}

#[test]
fn number_operator_tokens_round_trip() {
    assert_eq!(NumberOperator::from("==").to_string(), "==");
    assert_eq!(NumberOperator::from("!=").to_string(), "!=");
    assert_eq!(NumberOperator::from("<").to_string(), "<");
    assert_eq!(NumberOperator::from("<=").to_string(), "<=");
    assert_eq!(NumberOperator::from(">").to_string(), ">");
    assert_eq!(NumberOperator::from(">=").to_string(), ">=");
}

#[test]
fn string_operator_tokens_round_trip() {
    assert_eq!(StringOperator::from("string_equals").to_string(), "string_equals");
    assert_eq!(
        StringOperator::from("string_not_equals").to_string(),
        "string_not_equals"
    );
    assert_eq!(
        StringOperator::from("string_contains").to_string(),
        "string_contains"
    );
    assert_eq!(
        StringOperator::from("string_not_contains").to_string(),
        "string_not_contains"
    );
    assert_eq!(
        StringOperator::from("string_starts_with").to_string(),
        "string_starts_with"
    );
    assert_eq!(
        StringOperator::from("string_ends_with").to_string(),
        "string_ends_with"
    );
    assert_eq!(
        StringOperator::from("string_is_empty").to_string(),
        "string_is_empty"
    );
    assert_eq!(
        StringOperator::from("string_is_not_empty").to_string(),
        "string_is_not_empty"
    );
}
