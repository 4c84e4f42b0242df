use bitd::lexer::lex_error::LexError;
use bitd::lexer::parse_constant;
use bitd::lexer::parse_dice_operator;
use bitd::lexer::OperatorType;

#[test]
fn new_keeps_the_message() {
    assert_eq!(LexError::new("Lexer Error Occurred").message(), "Lexer Error Occurred");
    assert_eq!(LexError::new("").message(), "");
}

#[test]
fn dice_expression_names_the_expression() {
    assert_eq!(
        LexError::dice_expression("2d").message(),
        "Could not lex Dice Expression \"2d\""
    );
}

#[test]
fn parse_number_names_the_digits() {
    assert_eq!(
        LexError::parse_number("99999999999999999999").message(),
        "Failed to parse \"99999999999999999999\" into number"
    );
}

#[test]
fn unknown_operator_names_the_symbol() {
    assert_eq!(LexError::unknown_operator("%").message(), "Unknown Operator \"%\"");
}

#[test]
fn unknown_token_names_the_text() {
    assert_eq!(LexError::unknown_token("$5").message(), "Unknown Token \"$5\"");
}

#[test]
fn errors_compare_by_message_and_clone() {
    let error = LexError::unknown_token("x");
    assert_eq!(error.clone(), error);
    assert_eq!(error, LexError::new("Unknown Token \"x\""));
    assert_ne!(error, LexError::unknown_token("y"));
}

#[test]
fn the_four_operators() {
    assert_eq!(parse_dice_operator("+").unwrap(), OperatorType::Add);
    assert_eq!(parse_dice_operator("-").unwrap(), OperatorType::Subtract);
    assert_eq!(parse_dice_operator("*").unwrap(), OperatorType::Multiply);
    assert_eq!(parse_dice_operator("/").unwrap(), OperatorType::Divide);
}

#[test]
fn anything_else_is_an_unknown_operator() {
    for text in ["", "%", "++", "+ ", "x", "÷"] {
        let error = parse_dice_operator(text).unwrap_err();
        assert_eq!(error.message(), format!("Unknown Operator \"{}\"", text));
    }
}

#[test]
fn constants() {
    assert_eq!(parse_constant("0").unwrap(), 0);
    assert_eq!(parse_constant("42").unwrap(), 42);
    assert_eq!(parse_constant("0000123").unwrap(), 123);
    assert_eq!(parse_constant("18446744073709551615").unwrap(), u64::MAX);
}

#[test]
fn text_that_is_no_constant() {
    for text in ["", "18446744073709551616", "184467440737095516150", "+1", "1a", " 1", "１"] {
        let error = parse_constant(text).unwrap_err();
        assert_eq!(error.message(), format!("Failed to parse \"{}\" into number", text));
    }
}
