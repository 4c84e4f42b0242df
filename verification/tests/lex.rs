use bitd::lexer::lex;
use bitd::lexer::OperatorType;
use bitd::lexer::Token;

fn dice(token: &Token) -> (u64, u64, String) {
    match token {
        Token::DiceExpression { data, .. } => {
            (data.quantity(), data.size(), data.modifiers().to_string())
        }
        other => panic!("not a dice expression: {:?}", other),
    }
}

fn joined(tokens: &[Token]) -> String {
    let mut text = String::new();
    for token in tokens {
        text.push_str(token.raw());
    }
    text
}

fn constant(raw: &str, value: u64) -> Token {
    Token::Constant { raw: raw.to_string(), value }
}

fn operator(raw: &str, operator: OperatorType) -> Token {
    Token::Operator { raw: raw.to_string(), operator }
}

fn whitespace(raw: &str) -> Token {
    Token::Whitespace { raw: raw.to_string() }
}

#[test]
fn dice_expression_wins_over_constant() {
    let tokens = lex("2d6").unwrap();
    assert_eq!(tokens.len(), 1);
    assert_eq!(dice(&tokens[0]), (2, 6, String::new()));
    assert_eq!(tokens[0].raw(), "2d6");
}

#[test]
fn missing_quantity_defaults_to_one() {
    let tokens = lex("d20").unwrap();
    assert_eq!(tokens.len(), 1);
    assert_eq!(dice(&tokens[0]), (1, 20, String::new()));
    assert_eq!(tokens[0].raw(), "d20");
}

#[test]
fn modifiers_are_captured() {
    let tokens = lex("4d8adv").unwrap();
    assert_eq!(tokens.len(), 1);
    assert_eq!(dice(&tokens[0]), (4, 8, "adv".to_string()));
    assert_eq!(tokens[0].raw(), "4d8adv");
}

#[test]
fn operators_and_whitespace_in_order() {
    let tokens = lex("+ - * /").unwrap();
    let expected = vec![
        operator("+", OperatorType::Add),
        whitespace(" "),
        operator("-", OperatorType::Subtract),
        whitespace(" "),
        operator("*", OperatorType::Multiply),
        whitespace(" "),
        operator("/", OperatorType::Divide),
    ];
    assert_eq!(tokens, expected);
}

#[test]
fn constant_is_parsed() {
    assert_eq!(lex("42").unwrap(), vec![constant("42", 42)]);
}

#[test]
fn unknown_token_fails_without_partial_result() {
    let error = lex("2d6 + $5").unwrap_err();
    assert_eq!(error.message(), "Unknown Token \"$5\"");
}

#[test]
fn empty_input_gives_no_tokens() {
    assert_eq!(lex("").unwrap(), Vec::<Token>::new());
}

#[test]
fn whitespace_only_input_is_one_token() {
    assert_eq!(lex(" \t\r\n ").unwrap(), vec![whitespace(" \t\r\n ")]);
}

#[test]
fn whitespace_is_kept_between_tokens() {
    let tokens = lex("1  +\t2").unwrap();
    let expected = vec![
        constant("1", 1),
        whitespace("  "),
        operator("+", OperatorType::Add),
        whitespace("\t"),
        constant("2", 2),
    ];
    assert_eq!(tokens, expected);
}

#[test]
fn unicode_whitespace_is_whitespace() {
    let tokens = lex("1\u{a0}\u{2003}2").unwrap();
    assert_eq!(tokens, vec![constant("1", 1), whitespace("\u{a0}\u{2003}"), constant("2", 2)]);
}

#[test]
fn mixed_expression_is_tokenized_in_order() {
    let tokens = lex("2d6+3*d20adv").unwrap();
    assert_eq!(tokens.len(), 5);
    assert_eq!(dice(&tokens[0]), (2, 6, String::new()));
    assert_eq!(tokens[1], operator("+", OperatorType::Add));
    assert_eq!(tokens[2], constant("3", 3));
    assert_eq!(tokens[3], operator("*", OperatorType::Multiply));
    assert_eq!(dice(&tokens[4]), (1, 20, "adv".to_string()));
    assert_eq!(tokens[4].raw(), "d20adv");
}

#[test]
fn substrings_reproduce_the_input() {
    let inputs = [
        "",
        "2d6",
        "2d6+3*d20adv",
        " 12 / 4 - d8x2 ",
        "+-*/",
        "007 \u{3000}1d1a",
        "10d10d10",
    ];
    for input in inputs {
        let tokens = lex(input).unwrap();
        assert_eq!(joined(&tokens), input);
        for token in &tokens {
            assert!(!token.raw().is_empty());
        }
    }
}

#[test]
fn same_input_gives_same_tokens() {
    let inputs = ["2d6 + 4d8adv - 17", "", "d20", "2d6 + $5", "1d99999999999999999999"];
    for input in inputs {
        assert_eq!(lex(input), lex(input));
    }
}

#[test]
fn dangling_d_is_an_unknown_token() {
    assert_eq!(lex("d").unwrap_err().message(), "Unknown Token \"d\"");
    assert_eq!(lex("3 + dx").unwrap_err().message(), "Unknown Token \"dx\"");
}

#[test]
fn digits_before_a_dangling_d_are_a_constant_first() {
    // "2" is a constant; the "d" behind it begins no token.
    assert_eq!(lex("2d").unwrap_err().message(), "Unknown Token \"d\"");
    assert_eq!(lex("2d +1").unwrap_err().message(), "Unknown Token \"d\"");
}

#[test]
fn unknown_token_run_ends_at_whitespace() {
    assert_eq!(lex("1 ab+c 2").unwrap_err().message(), "Unknown Token \"ab+c\"");
    assert_eq!(lex("é\u{2003}1").unwrap_err().message(), "Unknown Token \"é\"");
}

#[test]
fn second_d_begins_the_modifiers() {
    let tokens = lex("10d10d10").unwrap();
    assert_eq!(tokens.len(), 1);
    assert_eq!(dice(&tokens[0]), (10, 10, "d10".to_string()));
}

#[test]
fn leading_zeros_do_not_change_a_number() {
    assert_eq!(lex("007").unwrap(), vec![constant("007", 7)]);
    let tokens = lex("02d06").unwrap();
    assert_eq!(dice(&tokens[0]), (2, 6, String::new()));
    assert_eq!(tokens[0].raw(), "02d06");
}

#[test]
fn zero_is_a_constant() {
    assert_eq!(lex("0").unwrap(), vec![constant("0", 0)]);
}

#[test]
fn largest_constant_fits() {
    assert_eq!(
        lex("18446744073709551615").unwrap(),
        vec![constant("18446744073709551615", u64::MAX)]
    );
    assert_eq!(
        lex("000018446744073709551615").unwrap(),
        vec![constant("000018446744073709551615", u64::MAX)]
    );
}

#[test]
fn constant_out_of_range_fails() {
    assert_eq!(
        lex("18446744073709551616").unwrap_err().message(),
        "Failed to parse \"18446744073709551616\" into number"
    );
    assert_eq!(
        lex("1 + 99999999999999999999999").unwrap_err().message(),
        "Failed to parse \"99999999999999999999999\" into number"
    );
}

#[test]
fn quantity_out_of_range_fails() {
    assert_eq!(
        lex("18446744073709551616d6").unwrap_err().message(),
        "Failed to parse \"18446744073709551616\" into number"
    );
}

#[test]
fn size_out_of_range_fails() {
    assert_eq!(
        lex("2d18446744073709551616kh").unwrap_err().message(),
        "Failed to parse \"18446744073709551616\" into number"
    );
}

#[test]
fn quantity_fails_before_size() {
    assert_eq!(
        lex("99999999999999999999d88888888888888888888").unwrap_err().message(),
        "Failed to parse \"99999999999999999999\" into number"
    );
}

#[test]
fn zero_dice_or_zero_sides_fail() {
    assert_eq!(lex("0d6").unwrap_err().message(), "Failed to parse \"0\" into number");
    assert_eq!(lex("2d00").unwrap_err().message(), "Failed to parse \"00\" into number");
}

#[test]
fn first_error_wins() {
    // The number that is out of range comes before the unknown token.
    assert_eq!(
        lex("99999999999999999999 $").unwrap_err().message(),
        "Failed to parse \"99999999999999999999\" into number"
    );
    assert_eq!(lex("$ 99999999999999999999").unwrap_err().message(), "Unknown Token \"$\"");
}

#[test]
fn token_raw_is_the_matched_substring() {
    let tokens = lex("12d34abc \u{2003}+").unwrap();
    let raws: Vec<&str> = tokens.iter().map(|token| token.raw()).collect();
    assert_eq!(raws, vec!["12d34abc", " \u{2003}", "+"]);
}

#[test]
fn tokens_can_be_cloned() {
    let tokens = lex("3d6kh2 + 1").unwrap();
    let copies: Vec<Token> = tokens.iter().map(|token| token.clone()).collect();
    assert_eq!(copies, tokens);
}
