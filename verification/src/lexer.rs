//! The tokenizer: the token data model and the driver that produces tokens.

pub mod chars;
pub mod dice;
pub mod laws;
pub mod lex_error;
pub mod number;
pub mod pattern;
pub mod scan;

use self::chars::{
    all_in, chars_of, is_letter, is_run, run_len, scan_run, string_of, CharClass,
};
use self::dice::{dice_data, dice_reading, parse_dice_expression};
use self::laws::{lemma_tokens_are_well_formed, lemma_tokens_cover_input};
use self::lex_error::{
    parse_number_message, unknown_operator_message, unknown_token_message, LexError,
};
use self::number::{decimal_value, value_of};
use self::pattern::{pattern_groups, DICE_PATTERN};
use self::scan::{
    first_match, is_dice_expression, lemma_match_len_bounds, match_len, next_match, Category,
};
use vstd::prelude::*;
use vstd::slice::slice_subrange;

verus! {

/// A single-character arithmetic operator.
#[derive(Debug, Clone, Copy, PartialEq, Eq)]
pub enum OperatorType {
    /// `+`
    Add,
    /// `-`
    Subtract,
    /// `*`
    Multiply,
    /// `/`
    Divide,
}

/// The parsed fields of dice notation such as `2d6`, `d20` or `4d8adv`.
///
/// Quantity and size are at least 1, and the modifiers are empty or a letter
/// followed by letters and digits; nothing outside this module can make a
/// value for which that fails.
#[derive(Debug, PartialEq, Eq)]
pub struct DiceExpressionData {
    dice_quantity: u64,
    dice_size: u64,
    modifiers: String,
}

/// The mathematical content of a [`DiceExpressionData`].
pub struct DiceExpressionView {
    /// How many dice are rolled.
    pub quantity: nat,
    /// How many sides each die has.
    pub size: nat,
    /// The modifier suffix, verbatim; empty where there is none.
    pub modifiers: Seq<char>,
}

/// Whether `modifiers` is a modifier suffix: a letter followed by letters and
/// digits.
pub open spec fn is_modifier(modifiers: Seq<char>) -> bool {
    &&& modifiers.len() > 0
    &&& is_letter(modifiers[0])
    &&& all_in(modifiers, CharClass::Alphanumeric)
}

impl DiceExpressionView {
    /// The invariant of dice expression data: at least one die, at least one
    /// side, both within 64 bits, and modifiers that are absent or well
    /// shaped.
    pub open spec fn well_formed(self) -> bool {
        &&& 1 <= self.quantity <= u64::MAX
        &&& 1 <= self.size <= u64::MAX
        &&& self.modifiers.len() == 0 || is_modifier(self.modifiers)
    }
}

impl View for DiceExpressionData {
    type V = DiceExpressionView;

    closed spec fn view(&self) -> DiceExpressionView {
        DiceExpressionView {
            quantity: self.dice_quantity as nat,
            size: self.dice_size as nat,
            modifiers: self.modifiers@,
        }
    }
}

impl Clone for DiceExpressionData {
    fn clone(&self) -> (copy: DiceExpressionData)
        ensures
            copy@ == self@,
    {
        proof {
            use_type_invariant(self);
        }
        DiceExpressionData {
            dice_quantity: self.dice_quantity,
            dice_size: self.dice_size,
            modifiers: self.modifiers.clone(),
        }
    }
}

impl DiceExpressionData {
    #[verifier::type_invariant]
    closed spec fn holds(self) -> bool {
        self@.well_formed()
    }

    /// Dice expression data with the given fields.
    pub(crate) fn new(quantity: u64, size: u64, modifiers: String) -> (data: DiceExpressionData)
        requires
            quantity >= 1,
            size >= 1,
            modifiers@.len() == 0 || is_modifier(modifiers@),
        ensures
            data@ == (DiceExpressionView {
                quantity: quantity as nat,
                size: size as nat,
                modifiers: modifiers@,
            }),
    {
        DiceExpressionData { dice_quantity: quantity, dice_size: size, modifiers }
    }

    /// The number of dice, at least 1.
    pub fn quantity(&self) -> (quantity: u64)
        ensures
            quantity == self@.quantity,
            self@.well_formed(),
    {
        proof {
            use_type_invariant(self);
        }
        self.dice_quantity
    }

    /// The number of sides of each die, at least 1.
    pub fn size(&self) -> (size: u64)
        ensures
            size == self@.size,
            self@.well_formed(),
    {
        proof {
            use_type_invariant(self);
        }
        self.dice_size
    }

    /// The modifier suffix; empty where the expression has none.
    pub fn modifiers(&self) -> (modifiers: &str)
        ensures
            modifiers@ == self@.modifiers,
            self@.well_formed(),
    {
        proof {
            use_type_invariant(self);
        }
        self.modifiers.as_str()
    }
}

/// One token of a dice expression. Every token owns the substring of the
/// input that it was made from.
#[derive(Debug, PartialEq, Eq)]
pub enum Token {
    /// Dice notation such as `2d6`, `d20` or `4d8adv`.
    DiceExpression { raw: String, data: DiceExpressionData },
    /// A bare number.
    Constant { raw: String, value: u64 },
    /// One or more contiguous whitespace characters.
    Whitespace { raw: String },
    /// One of the operators `+ - * /`.
    Operator { raw: String, operator: OperatorType },
}

/// The mathematical content of a [`Token`]: the same variants, each with
/// its substring as a sequence of characters.
pub enum TokenView {
    DiceExpression { raw: Seq<char>, data: DiceExpressionView },
    Constant { raw: Seq<char>, value: nat },
    Whitespace { raw: Seq<char> },
    Operator { raw: Seq<char>, operator: OperatorType },
}

impl TokenView {
    /// The substring of the input that the token was made from.
    pub open spec fn raw(self) -> Seq<char> {
        match self {
            TokenView::DiceExpression { raw, .. } => raw,
            TokenView::Constant { raw, .. } => raw,
            TokenView::Whitespace { raw } => raw,
            TokenView::Operator { raw, .. } => raw,
        }
    }

    /// Whether the token agrees with its substring: a dice expression holds
    /// what its substring, a dice expression, says; a constant holds the
    /// number that its substring writes; whitespace is a run of whitespace;
    /// an operator is the one that its substring names.
    pub open spec fn well_formed(self) -> bool {
        match self {
            TokenView::DiceExpression { raw, data } => {
                &&& is_dice_expression(raw)
                &&& dice_reading(raw) == Ok::<DiceExpressionView, Seq<char>>(data)
                &&& data.well_formed()
            },
            TokenView::Constant { raw, value } => constant_of(raw) == Ok::<nat, Seq<char>>(value),
            TokenView::Whitespace { raw } => is_run(raw, CharClass::Whitespace),
            TokenView::Operator { raw, operator } => operator_of(raw) == Ok::<
                OperatorType,
                Seq<char>,
            >(operator),
        }
    }
}

/// The substrings of `tokens`, joined in order.
pub open spec fn raw_text(tokens: Seq<TokenView>) -> Seq<char> {
    tokens.map_values(|token: TokenView| token.raw()).flatten()
}

/// What a call of [`lex`] returned, as mathematical values.
pub open spec fn outcome(result: Result<Vec<Token>, LexError>) -> Result<
    Seq<TokenView>,
    Seq<char>,
> {
    match result {
        Ok(tokens) => Ok(tokens.deep_view()),
        Err(error) => Err(error@),
    }
}

impl View for Token {
    type V = TokenView;

    open spec fn view(&self) -> TokenView {
        match self {
            Token::DiceExpression { raw, data } => TokenView::DiceExpression {
                raw: raw@,
                data: data@,
            },
            Token::Constant { raw, value } => TokenView::Constant { raw: raw@, value: *value as nat },
            Token::Whitespace { raw } => TokenView::Whitespace { raw: raw@ },
            Token::Operator { raw, operator } => TokenView::Operator {
                raw: raw@,
                operator: *operator,
            },
        }
    }
}

impl DeepView for Token {
    type V = TokenView;

    open spec fn deep_view(&self) -> TokenView {
        self@
    }
}

impl Clone for Token {
    fn clone(&self) -> (copy: Token)
        ensures
            copy@ == self@,
    {
        match self {
            Token::DiceExpression { raw, data } => Token::DiceExpression {
                raw: raw.clone(),
                data: data.clone(),
            },
            Token::Constant { raw, value } => Token::Constant { raw: raw.clone(), value: *value },
            Token::Whitespace { raw } => Token::Whitespace { raw: raw.clone() },
            Token::Operator { raw, operator } => Token::Operator {
                raw: raw.clone(),
                operator: *operator,
            },
        }
    }
}

impl Token {
    /// The substring of the input that this token was made from.
    pub fn raw(&self) -> (raw: &str)
        ensures
            raw@ == self@.raw(),
    {
        match self {
            Token::DiceExpression { raw, .. } => raw.as_str(),
            Token::Constant { raw, .. } => raw.as_str(),
            Token::Whitespace { raw } => raw.as_str(),
            Token::Operator { raw, .. } => raw.as_str(),
        }
    }
}

/// The operator that the symbol `c` stands for, if any.
pub open spec fn operator_for(c: char) -> Option<OperatorType> {
    if c == '+' {
        Some(OperatorType::Add)
    } else if c == '-' {
        Some(OperatorType::Subtract)
    } else if c == '*' {
        Some(OperatorType::Multiply)
    } else if c == '/' {
        Some(OperatorType::Divide)
    } else {
        None
    }
}

/// The operator that `text` names where it is a single operator symbol,
/// else the unknown-operator error for it.
pub open spec fn operator_of(text: Seq<char>) -> Result<OperatorType, Seq<char>> {
    if text.len() == 1 && operator_for(text[0]) is Some {
        Ok(operator_for(text[0])->0)
    } else {
        Err(unknown_operator_message(text))
    }
}

/// The number that `text` writes where it is a non-empty run of digits whose
/// value fits in 64 bits, else the number-parse error for it.
pub open spec fn constant_of(text: Seq<char>) -> Result<nat, Seq<char>> {
    if is_run(text, CharClass::Digit) && decimal_value(text) <= u64::MAX {
        Ok(decimal_value(text))
    } else {
        Err(parse_number_message(text))
    }
}

/// The token of `category` that the matched substring `text` makes, or the
/// error that its classifier ends with. A dice expression is decomposed by
/// what the pattern engine finds for [`DICE_PATTERN`] in `text`.
pub open spec fn token_of(category: Category, text: Seq<char>) -> Result<TokenView, Seq<char>> {
    match category {
        Category::DiceExpression => match dice_data(text, pattern_groups(DICE_PATTERN@, text)) {
            Ok(data) => Ok(TokenView::DiceExpression { raw: text, data }),
            Err(message) => Err(message),
        },
        Category::Constant => match constant_of(text) {
            Ok(value) => Ok(TokenView::Constant { raw: text, value }),
            Err(message) => Err(message),
        },
        Category::Operator => match operator_of(text) {
            Ok(operator) => Ok(TokenView::Operator { raw: text, operator }),
            Err(message) => Err(message),
        },
        Category::Whitespace => Ok(TokenView::Whitespace { raw: text }),
    }
}

/// The first token of the unconsumed input `rest`: one step of the
/// tokenizer.
///
/// The category that wins at the start of `rest` takes its longest match,
/// and the matched prefix becomes the token, or ends everything with the
/// error of its classifier. Where no category matches, the unknown-token
/// error for the run of non-whitespace characters that `rest` begins with.
pub open spec fn first_token(rest: Seq<char>) -> Result<TokenView, Seq<char>> {
    match first_match(rest) {
        Some(category) => token_of(category, rest.take(match_len(rest, category) as int)),
        None => Err(unknown_token_message(rest.take(run_len(rest, CharClass::Visible, 0) as int))),
    }
}

/// `tokens` followed by the tokens of `rest`; the error of `rest` where it is
/// one.
pub open spec fn followed_by(tokens: Seq<TokenView>, rest: Result<Seq<TokenView>, Seq<char>>)
    -> Result<Seq<TokenView>, Seq<char>> {
    match rest {
        Ok(more) => Ok(tokens + more),
        Err(message) => Err(message),
    }
}

/// The outcome of tokenizing `s`: no tokens where `s` is empty; otherwise
/// the first token of `s`, followed by the tokens of what is left of `s`
/// behind the substring of that token. The first error ends everything.
pub open spec fn tokenize(s: Seq<char>) -> Result<Seq<TokenView>, Seq<char>>
    decreases s.len(),
    via tokenize_decreases
{
    if s.len() == 0 {
        Ok(Seq::empty())
    } else {
        match first_token(s) {
            Err(message) => Err(message),
            Ok(token) => followed_by(seq![token], tokenize(s.skip(token.raw().len() as int))),
        }
    }
}

#[via_fn]
proof fn tokenize_decreases(s: Seq<char>) {
    if let Some(category) = first_match(s) {
        lemma_match_len_bounds(s, category);
    }
}

/// Classifies an operator symbol.
pub fn parse_dice_operator(text: &str) -> (result: Result<OperatorType, LexError>)
    ensures
        match result {
            Ok(operator) => operator_of(text@) == Ok::<OperatorType, Seq<char>>(operator),
            Err(error) => operator_of(text@) == Err::<OperatorType, Seq<char>>(error@),
        },
{
    let chars = chars_of(text);
    if chars.len() == 1 {
        let symbol = chars[0];
        if symbol == '+' {
            return Ok(OperatorType::Add);
        } else if symbol == '-' {
            return Ok(OperatorType::Subtract);
        } else if symbol == '*' {
            return Ok(OperatorType::Multiply);
        } else if symbol == '/' {
            return Ok(OperatorType::Divide);
        }
    }
    Err(LexError::unknown_operator(text))
}

/// Reads a bare number.
pub fn parse_constant(text: &str) -> (result: Result<u64, LexError>)
    ensures
        match result {
            Ok(value) => constant_of(text@) == Ok::<nat, Seq<char>>(value as nat),
            Err(error) => constant_of(text@) == Err::<nat, Seq<char>>(error@),
        },
{
    let chars = chars_of(text);
    if chars.len() == 0 {
        return Err(LexError::parse_number(text));
    }
    match value_of(chars.as_slice()) {
        Some(value) => Ok(value),
        None => Err(LexError::parse_number(text)),
    }
}

/// Makes the token of `category` from the matched substring `raw`.
pub fn classify(category: Category, raw: String) -> (result: Result<Token, LexError>)
    ensures
        match result {
            Ok(token) => token_of(category, raw@) == Ok::<TokenView, Seq<char>>(token@),
            Err(error) => token_of(category, raw@) == Err::<TokenView, Seq<char>>(error@),
        },
{
    match category {
        Category::DiceExpression => {
            let data = parse_dice_expression(raw.as_str())?;
            Ok(Token::DiceExpression { raw, data })
        },
        Category::Constant => {
            let value = parse_constant(raw.as_str())?;
            Ok(Token::Constant { raw, value })
        },
        Category::Operator => {
            let operator = parse_dice_operator(raw.as_str())?;
            Ok(Token::Operator { raw, operator })
        },
        Category::Whitespace => Ok(Token::Whitespace { raw }),
    }
}

/// Takes one token off the unconsumed input `rest`: the token and the
/// number of characters that it consumed, or the error that ends the
/// tokenizer.
pub fn next_token(rest: &[char]) -> (result: Result<(Token, usize), LexError>)
    ensures
        match result {
            Ok((token, consumed)) => {
                &&& first_token(rest@) == Ok::<TokenView, Seq<char>>(token@)
                &&& consumed == token@.raw().len()
                &&& 0 < consumed <= rest@.len()
            },
            Err(error) => first_token(rest@) == Err::<TokenView, Seq<char>>(error@),
        },
{
    match next_match(rest) {
        Some((category, len)) => {
            let token = classify(category, string_of(rest, 0, len))?;
            Ok((token, len))
        },
        None => {
            let run = scan_run(rest, CharClass::Visible, 0);
            let text = string_of(rest, 0, run);
            Err(LexError::unknown_token(text.as_str()))
        },
    }
}

/// Converts a dice expression into its ordered sequence of tokens, or fails
/// with the first error met; no tokens are returned on failure.
///
/// The outcome is [`tokenize`] of the input, and so the same for the same
/// input. The substrings of the tokens returned, joined in order, are the
/// input, and every token agrees with its substring.
pub fn lex(dice_expression: &str) -> (result: Result<Vec<Token>, LexError>)
    ensures
        outcome(result) == tokenize(dice_expression@),
        result matches Ok(tokens) ==> {
            &&& raw_text(tokens.deep_view()) == dice_expression@
            &&& forall|i: int| 0 <= i < tokens.len() ==> (#[trigger] tokens[i])@.well_formed()
        },
{
    let input = chars_of(dice_expression);
    let chars = input.as_slice();
    let total = chars.len();
    let mut tokens: Vec<Token> = Vec::new();
    let mut cursor: usize = 0;
    proof {
        assert(chars@.skip(0) =~= chars@);
        if let Ok(all) = tokenize(chars@) {
            assert(tokens.deep_view() + all =~= all);
        }
    }
    while cursor < total
        invariant
            chars@ == dice_expression@,
            total == chars@.len(),
            cursor <= total,
            tokenize(chars@) == followed_by(
                tokens.deep_view(),
                tokenize(chars@.skip(cursor as int)),
            ),
        decreases total - cursor,
    {
        let rest = slice_subrange(chars, cursor, total);
        assert(rest@ == chars@.skip(cursor as int));
        let (token, consumed) = next_token(rest)?;
        proof {
            let after = tokenize(rest@.skip(consumed as int));
            assert(tokenize(rest@) == followed_by(seq![token@], after));
            assert(rest@.skip(consumed as int) =~= chars@.skip(cursor + consumed));
            if let Ok(more) = after {
                assert(tokens.deep_view() + (seq![token@] + more) =~= tokens.deep_view().push(
                    token@,
                ) + more);
            }
        }
        let ghost before = tokens.deep_view();
        tokens.push(token);
        assert(tokens.deep_view() =~= before.push(token@));
        cursor += consumed;
    }
    proof {
        assert(chars@.skip(cursor as int).len() == 0);
        assert(tokens.deep_view() + Seq::<TokenView>::empty() =~= tokens.deep_view());
        lemma_tokens_cover_input(chars@, tokens.deep_view());
        lemma_tokens_are_well_formed(chars@, tokens.deep_view());
        assert forall|i: int| 0 <= i < tokens.len() implies (#[trigger] tokens[i])@.well_formed() by {
            assert(tokens.deep_view()[i] == tokens[i]@);
        }
    }
    Ok(tokens)
}

} // verus!
