use rlox::error::Diagnostic;
use rlox::Lox;

const FUEL: u64 = 1_000_000;

fn run_lines(source: &str) -> Vec<String> {
    let mut lox = Lox::new();
    let out = lox.run(source, FUEL);
    assert!(!lox.error_handler.had_error, "unexpected scan/parse error");
    assert!(!lox.error_handler.had_runtime_error, "unexpected runtime error");
    out
}

fn run_runtime_error(source: &str) -> (Vec<String>, u32, String) {
    let mut lox = Lox::new();
    let out = lox.run(source, FUEL);
    assert!(!lox.error_handler.had_error);
    assert!(lox.error_handler.had_runtime_error);
    match lox.error_handler.diagnostics.last().unwrap() {
        Diagnostic::Runtime { line, message } => (out, *line, message.clone()),
        Diagnostic::Report { .. } => panic!("expected a runtime diagnostic"),
    }
}

#[test]
fn precedence_multiplication_binds_tighter() {
    assert_eq!(run_lines("print 1 + 2 * 3;"), vec!["7".to_string()]);
}

#[test]
fn grouping_overrides_precedence() {
    assert_eq!(run_lines("print (1 + 2) * 3;"), vec!["9".to_string()]);
}

#[test]
fn ieee_arithmetic_all_operators() {
    assert_eq!(run_lines("print 5 - 2;"), vec!["3".to_string()]);
    assert_eq!(run_lines("print 6 / 2;"), vec!["3".to_string()]);
    assert_eq!(run_lines("print 2 * 3.5;"), vec!["7".to_string()]);
    assert_eq!(run_lines("print -(3);"), vec!["-3".to_string()]);
    assert_eq!(run_lines("print 1 / 3;"), vec!["0.33333333".to_string()]);
    assert_eq!(run_lines("print 0.1 + 0.2;"), vec!["0.3".to_string()]);
}

#[test]
fn comparisons_yield_booleans() {
    assert_eq!(run_lines("print 1 < 2;"), vec!["true".to_string()]);
    assert_eq!(run_lines("print 2 <= 1;"), vec!["false".to_string()]);
    assert_eq!(run_lines("print 2 > 1;"), vec!["true".to_string()]);
    assert_eq!(run_lines("print 1 >= 2;"), vec!["false".to_string()]);
}

#[test]
fn unary_minus_rejects_strings() {
    let (out, line, message) = run_runtime_error("-\"a\";");
    assert!(out.is_empty());
    assert_eq!(line, 1);
    assert_eq!(message, "Operand must be a number.");
}

#[test]
fn string_concatenation() {
    assert_eq!(run_lines("print \"foo\" + \"bar\";"), vec!["foobar".to_string()]);
}

#[test]
fn string_plus_number_is_an_error() {
    let (_, _, message) = run_runtime_error("\"foo\" + 1;");
    assert_eq!(message, "Invalid binary operation");
}

#[test]
fn equality_across_variants_is_false_not_an_error() {
    assert_eq!(run_lines("print 1 == \"1\";"), vec!["false".to_string()]);
    assert_eq!(run_lines("print 1 != \"1\";"), vec!["true".to_string()]);
    assert_eq!(run_lines("print nil == nil;"), vec!["true".to_string()]);
    assert_eq!(run_lines("print \"a\" == \"a\";"), vec!["true".to_string()]);
    assert_eq!(run_lines("print true == false;"), vec!["false".to_string()]);
}

#[test]
fn block_scoping_shadows_without_mutating() {
    assert_eq!(
        run_lines("var a = 1; { var a = 2; print a; } print a;"),
        vec!["2".to_string(), "1".to_string()]
    );
}

#[test]
fn assignment_requires_declaration() {
    let (_, _, message) = run_runtime_error("x = 1;");
    assert_eq!(message, "Undefined variable 'x'.");
}

#[test]
fn assignment_updates_a_declared_variable() {
    assert_eq!(run_lines("var x = 1; x = 2; print x;"), vec!["2".to_string()]);
}

#[test]
fn assignment_reaches_the_enclosing_scope() {
    assert_eq!(
        run_lines("var x = 1; { x = 2; } print x;"),
        vec!["2".to_string()]
    );
}

#[test]
fn and_short_circuits_on_falsy_left() {
    assert_eq!(
        run_lines("var x = 0; false and (x = 1); print x;"),
        vec!["0".to_string()]
    );
}

#[test]
fn or_short_circuits_on_truthy_left() {
    assert_eq!(
        run_lines("var x = 0; true or (x = 1); print x;"),
        vec!["0".to_string()]
    );
}

#[test]
fn and_evaluates_right_when_left_truthy() {
    assert_eq!(
        run_lines("var x = 0; true and (x = 1); print x;"),
        vec!["1".to_string()]
    );
}

#[test]
fn or_evaluates_right_when_left_falsy() {
    assert_eq!(
        run_lines("var x = 0; false or (x = 1); print x;"),
        vec!["1".to_string()]
    );
}

#[test]
fn logical_operators_return_the_operand_itself() {
    assert_eq!(run_lines("print \"a\" or 2;"), vec!["a".to_string()]);
    assert_eq!(run_lines("print nil or 2;"), vec!["2".to_string()]);
    assert_eq!(run_lines("print nil and 2;"), vec!["nil".to_string()]);
}

#[test]
fn for_loop_desugars_and_terminates() {
    assert_eq!(
        run_lines("for (var i = 0; i < 3; i = i + 1) print i;"),
        vec!["0".to_string(), "1".to_string(), "2".to_string()]
    );
}

#[test]
fn while_loop_runs_and_stops() {
    assert_eq!(
        run_lines("var i = 0; while (i < 2) { print i; i = i + 1; }"),
        vec!["0".to_string(), "1".to_string()]
    );
}

#[test]
fn if_else_picks_the_right_branch() {
    assert_eq!(run_lines("if (1 > 2) print 1; else print 2;"), vec!["2".to_string()]);
    assert_eq!(run_lines("if (2 > 1) print 1; else print 2;"), vec!["1".to_string()]);
    assert_eq!(run_lines("if (nil) print 1;"), Vec::<String>::new());
}

#[test]
fn truthiness_of_zero_and_empty_string() {
    assert_eq!(run_lines("print !0;"), vec!["false".to_string()]);
    assert_eq!(run_lines("print !\"\";"), vec!["false".to_string()]);
    assert_eq!(run_lines("print !nil;"), vec!["true".to_string()]);
    assert_eq!(run_lines("print !false;"), vec!["true".to_string()]);
}

#[test]
fn two_malformed_statements_give_two_errors_and_no_output() {
    let mut lox = Lox::new();
    let out = lox.run("+; -;", FUEL);
    assert!(out.is_empty());
    assert!(lox.error_handler.had_error);
    assert!(!lox.error_handler.had_runtime_error);
    assert_eq!(lox.error_handler.diagnostics.len(), 2);
    for d in &lox.error_handler.diagnostics {
        match d {
            Diagnostic::Report { message, .. } => assert_eq!(message, "Expect expression"),
            Diagnostic::Runtime { .. } => panic!("expected parse errors"),
        }
    }
}

#[test]
fn parse_error_at_end_of_input() {
    let mut lox = Lox::new();
    lox.run("print 1", FUEL);
    assert!(lox.error_handler.had_error);
    match &lox.error_handler.diagnostics[0] {
        Diagnostic::Report { line, location, message } => {
            assert_eq!(*line, 1);
            assert_eq!(location, " at end");
            assert_eq!(message, "Expect ';' after value.");
        },
        Diagnostic::Runtime { .. } => panic!("expected a parse error"),
    }
}

#[test]
fn invalid_assignment_target_is_reported_at_the_equals_sign() {
    let mut lox = Lox::new();
    lox.run("1 = 2;", FUEL);
    assert!(lox.error_handler.had_error);
    match &lox.error_handler.diagnostics[0] {
        Diagnostic::Report { location, message, .. } => {
            assert_eq!(location, " at '='");
            assert_eq!(message, "Invalid assignment target.");
        },
        Diagnostic::Runtime { .. } => panic!("expected a parse error"),
    }
}

#[test]
fn a_parse_error_blocks_all_execution() {
    let mut lox = Lox::new();
    let out = lox.run("print 1; print ;", FUEL);
    assert!(out.is_empty());
    assert!(lox.error_handler.had_error);
}

#[test]
fn a_runtime_error_stops_later_statements_but_keeps_earlier_output() {
    let (out, _, message) = run_runtime_error("print 1; print x; print 2;");
    assert_eq!(out, vec!["1".to_string()]);
    assert_eq!(message, "Undefined variable 'x'.");
}

#[test]
fn variables_persist_across_runs_of_one_session() {
    let mut lox = Lox::new();
    lox.run("var a = 5;", FUEL);
    let out = lox.run("print a;", FUEL);
    assert_eq!(out, vec!["5".to_string()]);
}

#[test]
fn var_without_initializer_is_nil() {
    assert_eq!(run_lines("var a; print a;"), vec!["nil".to_string()]);
}

#[test]
fn var_redefinition_overwrites_in_the_same_scope() {
    assert_eq!(run_lines("var a = 1; var a = 2; print a;"), vec!["2".to_string()]);
}

#[test]
fn assignment_is_an_expression_with_the_assigned_value() {
    assert_eq!(run_lines("var a = 1; var b = 2; a = b = 3; print a; print b;"),
        vec!["3".to_string(), "3".to_string()]);
}

#[test]
fn division_by_zero_is_an_infinity_not_an_error() {
    assert_eq!(run_lines("print 1 / 0;"), vec!["inf".to_string()]);
}

#[test]
fn runtime_error_in_a_block_still_unwinds_the_scope() {
    let mut lox = Lox::new();
    lox.run("var a = 1; { var a = 2; x; } ", FUEL);
    assert!(lox.error_handler.had_runtime_error);
    let out = {
        lox.error_handler.had_runtime_error = false;
        lox.run("print a;", FUEL)
    };
    assert_eq!(out, vec!["1".to_string()]);
}

#[test]
fn numbers_round_to_eight_decimals_for_display() {
    assert_eq!(run_lines("print 2 / 3;"), vec!["0.66666667".to_string()]);
    assert_eq!(run_lines("print 10 / 4;"), vec!["2.5".to_string()]);
}

fn first_report(source: &str) -> (u32, String, String) {
    let mut lox = Lox::new();
    lox.run(source, FUEL);
    assert!(lox.error_handler.had_error);
    match &lox.error_handler.diagnostics[0] {
        Diagnostic::Report { line, location, message } => {
            (*line, location.clone(), message.clone())
        },
        Diagnostic::Runtime { .. } => panic!("expected a parse error"),
    }
}

#[test]
fn var_without_a_name_is_a_parse_error() {
    let (_, _, message) = first_report("var = 1;");
    assert_eq!(message, "Expect variable name.");
}

#[test]
fn var_without_a_semicolon_is_a_parse_error() {
    let (_, _, message) = first_report("var a = 1");
    assert_eq!(message, "Expect ';' after variable declaration");
}

#[test]
fn unclosed_grouping_is_a_parse_error() {
    let (_, _, message) = first_report("(1 + 2;");
    assert_eq!(message, "Expect ')' after expression.");
}

#[test]
fn unclosed_block_is_a_parse_error() {
    let (_, _, message) = first_report("{ print 1;");
    assert_eq!(message, "Expect '}' after block.");
}

#[test]
fn if_without_parentheses_is_a_parse_error() {
    let (_, location, message) = first_report("if 1 > 2 print 1;");
    assert_eq!(location, " at '1'");
    assert_eq!(message, "Expect '(' after 'if'.");
}

#[test]
fn expression_statement_needs_a_semicolon() {
    let (_, _, message) = first_report("1 + 2");
    assert_eq!(message, "Expect ';' after expression.");
}

#[test]
fn while_without_closing_parenthesis_is_a_parse_error() {
    let (_, _, message) = first_report("while (true print 1;");
    assert_eq!(message, "Expect ')' after condition.");
}

#[test]
fn ordering_two_strings_is_a_runtime_error() {
    let (_, _, message) = run_runtime_error("\"a\" < \"b\";");
    assert_eq!(message, "Invalid infix operator for two strings");
}

#[test]
fn runtime_errors_carry_their_source_line() {
    let (_, line, _) = run_runtime_error("print 1;\nprint x;");
    assert_eq!(line, 2);
}

#[test]
fn plain_number_display() {
    assert_eq!(run_lines("print 123.45;"), vec!["123.45".to_string()]);
    assert_eq!(run_lines("print 0;"), vec!["0".to_string()]);
}

#[test]
fn number_equality_uses_ieee_semantics() {
    assert_eq!(run_lines("print 1 == 1;"), vec!["true".to_string()]);
    assert_eq!(run_lines("print 0/0 == 0/0;"), vec!["false".to_string()]);
}
