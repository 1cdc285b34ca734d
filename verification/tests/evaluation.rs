use silico_calculator::AppState;

fn evaluated(tokens: &[&str]) -> String {
    let mut state = AppState::new();
    for token in tokens {
        state.append(token);
    }
    state.evaluate();
    state.current_text().to_string()
}

#[test]
fn seven_plus_three_is_ten() {
    let mut state = AppState::new();
    state.append("7");
    state.append(" + ");
    state.append("3");
    state.evaluate();
    assert_eq!(state.current_text(), "10");
}

#[test]
fn an_open_bracket_is_an_error() {
    let mut state = AppState::new();
    state.append("(");
    state.append("5");
    state.evaluate();
    assert_eq!(state.current_text(), "Error");
    assert!(state.is_error());
}

#[test]
fn four_by_two_has_no_decimal_point() {
    assert_eq!(evaluated(&["4", " / ", "2"]), "2");
    assert_eq!(evaluated(&["4", " \u{f7} ", "2"]), "2");
}

#[test]
fn a_third_is_shown_to_eight_places() {
    assert_eq!(evaluated(&["1", " / ", "3"]), "0.33333333");
    assert_eq!(evaluated(&["1", " \u{f7} ", "3"]), "0.33333333");
    assert_eq!(evaluated(&["2", " \u{f7} ", "3"]), "0.66666667");
}

#[test]
fn zeros_at_the_end_of_the_fraction_are_dropped() {
    assert_eq!(evaluated(&["5", " \u{f7} ", "2"]), "2.5");
    assert_eq!(evaluated(&["1", " \u{f7} ", "8"]), "0.125");
    assert_eq!(evaluated(&["0", ".", "1", " + ", "0", ".", "2"]), "0.3");
    assert_eq!(evaluated(&["1", "0", ".", "5", "0"]), "10.5");
}

#[test]
fn the_decimal_point_stays_when_the_fraction_rounds_to_nothing() {
    assert_eq!(evaluated(&["1", " \u{f7} ", "1", "0", "0", "0", "0", "0", "0", "0", "0", "0"]), "0.");
    assert_eq!(evaluated(&["3", " + ", "0", ".", "0", "0", "0", "0", "0", "0", "0", "0", "1"]), "3.");
}

#[test]
fn the_signs_of_the_display_are_read_as_operators() {
    assert_eq!(evaluated(&["6", " \u{d7} ", "7"]), "42");
    assert_eq!(evaluated(&["8", " \u{f7} ", "2"]), "4");
    assert_eq!(evaluated(&["6", "*", "7"]), "42");
    assert_eq!(evaluated(&["8", "/", "2"]), "4");
    assert_eq!(evaluated(&["6", "\u{d7}", "7", "\u{f7}", "2"]), "21");
}

#[test]
fn operators_bind_as_usual() {
    assert_eq!(evaluated(&["2", " + ", "3", " \u{d7} ", "4"]), "14");
    assert_eq!(evaluated(&["(", "2", " + ", "3", ")", " \u{d7} ", "4"]), "20");
    assert_eq!(evaluated(&["2", " ^ ", "3", " ^ ", "2"]), "512");
    assert_eq!(evaluated(&["2", " \u{d7} ", "3", " ^ ", "2"]), "18");
    assert_eq!(evaluated(&["8", " - ", "3", " - ", "2"]), "3");
    assert_eq!(evaluated(&["8", " \u{f7} ", "4", " \u{f7} ", "2"]), "1");
    assert_eq!(evaluated(&["-", "2", " ^ ", "2"]), "-4");
    assert_eq!(evaluated(&["2", " ^ ", "1", "0"]), "1024");
}

#[test]
fn a_minus_sign_before_a_number_negates_it() {
    assert_eq!(evaluated(&["-", "5"]), "-5");
    assert_eq!(evaluated(&["3", " - ", "5"]), "-2");
    assert_eq!(evaluated(&["3", " \u{d7} ", "-", "2"]), "-6");
    assert_eq!(evaluated(&["-", "1", " \u{f7} ", "4"]), "-0.25");
    assert_eq!(evaluated(&["0", " \u{d7} ", "-", "1"]), "-0");
}

#[test]
fn whitespace_in_the_expression_is_ignored() {
    assert_eq!(evaluated(&[" ", "1", " ", " + ", " ", "2", " "]), "3");
}

#[test]
fn large_integers_are_written_out() {
    assert_eq!(evaluated(&["2", " ^ ", "6", "0"]), "1152921504606847000");
    assert_eq!(
        evaluated(&["1", "0", "0", "0", "0", "0", "0", "0", "0", "0", "0", "0", " \u{d7} ", "1", "0", "0", "0", "0", "0", "0", "0", "0", "0", "0", "0"]),
        "10000000000000000000000"
    );
}

#[test]
fn malformed_expressions_are_errors() {
    assert_eq!(evaluated(&[]), "Error");
    assert_eq!(evaluated(&[" "]), "Error");
    assert_eq!(evaluated(&[" ", " ", " "]), "Error");
    assert_eq!(evaluated(&[" + "]), "Error");
    assert_eq!(evaluated(&["5", " + "]), "Error");
    assert_eq!(evaluated(&[" \u{d7} ", "5"]), "Error");
    assert_eq!(evaluated(&["5", ")"]), "Error");
    assert_eq!(evaluated(&["(", ")"]), "Error");
    assert_eq!(evaluated(&["(", "(", "5", ")"]), "Error");
    assert_eq!(evaluated(&["5", " ", "5"]), "Error");
    assert_eq!(evaluated(&["1", ".", ".", "2"]), "Error");
    assert_eq!(evaluated(&["."]), "Error");
    assert_eq!(evaluated(&["2", "(", "3", ")"]), "Error");
}

#[test]
fn values_that_are_not_finite_are_errors() {
    assert_eq!(evaluated(&["1", " \u{f7} ", "0"]), "Error");
    assert_eq!(evaluated(&["-", "1", " \u{f7} ", "0"]), "Error");
    assert_eq!(evaluated(&["0", " \u{f7} ", "0"]), "Error");
    assert_eq!(evaluated(&["1", "0", " ^ ", "4", "0", "0"]), "Error");
    assert_eq!(evaluated(&["(", "-", "8", ")", " ^ ", "0", ".", "5"]), "Error");
}

#[test]
fn the_error_marker_evaluates_to_itself() {
    let mut state = AppState::new();
    state.evaluate();
    assert_eq!(state.current_text(), "Error");
    state.evaluate();
    assert_eq!(state.current_text(), "Error");
}

#[test]
fn evaluating_a_result_again_changes_nothing() {
    for tokens in [
        vec!["7", " + ", "3"],
        vec!["1", " \u{f7} ", "3"],
        vec!["5", " \u{f7} ", "2"],
        vec!["3", " - ", "5"],
        vec!["-", "1", " \u{f7} ", "4"],
        vec!["2", " ^ ", "6", "0"],
        vec!["0"],
        vec!["1", "2", "3", "4", "5", "6", "7", "8", "9"],
    ] {
        let mut state = AppState::new();
        for token in &tokens {
            state.append(token);
        }
        state.evaluate();
        let first = state.current_text().to_string();
        assert!(!state.is_error());
        state.evaluate();
        assert_eq!(state.current_text(), first);
    }
}

#[test]
fn a_result_can_be_edited_further() {
    let mut state = AppState::new();
    for token in ["1", "2", " \u{d7} ", "1", "2"] {
        state.append(token);
    }
    state.evaluate();
    assert_eq!(state.current_text(), "144");
    state.backspace();
    assert_eq!(state.current_text(), "14");
    state.append(" + ");
    state.append("1");
    state.evaluate();
    assert_eq!(state.current_text(), "15");
}
