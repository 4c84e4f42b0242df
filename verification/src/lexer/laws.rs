//! What holds of every tokenization.

use super::chars::{lemma_run_len, CharClass};
use super::dice::{
    decomposes, dice_data, dice_groups, group_text, lemma_dice_data_is_reading,
    lemma_dice_data_well_formed, lemma_dice_expression_decomposes,
};
use super::lex_error::{dice_expression_message, lemma_messages_tell_situations};
use super::pattern::{pattern_groups, DICE_PATTERN};
use super::scan::{
    first_match, is_dice_expression, lemma_match_is_whole, match_len, matches_whole, Category,
};
use super::{first_token, outcome, raw_text, token_of, tokenize, LexError, Token, TokenView};
use vstd::prelude::*;

verus! {

/// A token made from a substring that its category matches in whole owns
/// that substring and agrees with it.
pub proof fn lemma_token_is_faithful(category: Category, text: Seq<char>, token: TokenView)
    requires
        matches_whole(text, category),
        token_of(category, text) == Ok::<TokenView, Seq<char>>(token),
    ensures
        token.raw() == text,
        token.well_formed(),
{
    match category {
        Category::DiceExpression => {
            let groups = pattern_groups(DICE_PATTERN@, text);
            let data = dice_data(text, groups)->Ok_0;
            assert(token == TokenView::DiceExpression { raw: text, data });
            lemma_dice_data_is_reading(text, groups);
            lemma_dice_data_well_formed(text, groups, data);
        },
        Category::Constant => {},
        Category::Operator => {},
        Category::Whitespace => {
            lemma_run_len(text, CharClass::Whitespace, 0);
        },
    }
}

/// The pattern guarantee: what the matcher selects as a dice expression is
/// one, and the groups read directly off it split it. So parsing it ends
/// with the decomposition error only where the pattern engine finds other
/// groups than those.
pub proof fn lemma_selected_dice_expression_decomposes(rest: Seq<char>, text: Seq<char>)
    requires
        first_match(rest) == Some(Category::DiceExpression),
        text == rest.take(match_len(rest, Category::DiceExpression) as int),
    ensures
        is_dice_expression(text),
        decomposes(text, dice_groups(text)),
        pattern_groups(DICE_PATTERN@, text) == Some(dice_groups(text)) ==> first_token(rest)
            != Err::<TokenView, Seq<char>>(dice_expression_message(text)),
{
    lemma_match_is_whole(rest, Category::DiceExpression);
    lemma_dice_expression_decomposes(text);
    let quantity = dice_groups(text)[1];
    let size = dice_groups(text)[2];
    lemma_messages_tell_situations(text, group_text(quantity));
    lemma_messages_tell_situations(text, group_text(size));
}

/// The substrings of a token sequence, joined, begin with the substring of
/// its first token.
pub proof fn lemma_raw_text_prepend(token: TokenView, more: Seq<TokenView>)
    ensures
        raw_text(seq![token] + more) == token.raw() + raw_text(more),
{
    let raw = |token: TokenView| token.raw();
    let tokens = seq![token] + more;
    assert(tokens.map_values(raw).first() == token.raw());
    assert(tokens.map_values(raw).drop_first() =~= more.map_values(raw));
}

/// The first token of an input owns the prefix of the input that it was
/// made from, and agrees with it.
pub proof fn lemma_first_token_is_faithful(rest: Seq<char>, token: TokenView)
    requires
        first_token(rest) == Ok::<TokenView, Seq<char>>(token),
    ensures
        0 < token.raw().len() <= rest.len(),
        token.raw() == rest.take(token.raw().len() as int),
        token.well_formed(),
{
    let category = first_match(rest)->0;
    lemma_match_is_whole(rest, category);
    lemma_token_is_faithful(category, rest.take(match_len(rest, category) as int), token);
}

/// Where an input that is not empty has tokens, they are its first token
/// and the tokens of what is left behind that token's substring.
pub proof fn lemma_tokenize_unfolds(s: Seq<char>, tokens: Seq<TokenView>)
    requires
        s.len() > 0,
        tokenize(s) == Ok::<Seq<TokenView>, Seq<char>>(tokens),
    ensures
        first_token(s) matches Ok(token) && tokenize(
            s.skip(token.raw().len() as int),
        ) matches Ok(more) && tokens == seq![token] + more,
{
}

/// Coverage: the substrings of the tokens of an input, joined in order, are
/// the input, so that each input character is in exactly one token.
pub proof fn lemma_tokens_cover_input(s: Seq<char>, tokens: Seq<TokenView>)
    requires
        tokenize(s) == Ok::<Seq<TokenView>, Seq<char>>(tokens),
    ensures
        raw_text(tokens) == s,
    decreases s.len(),
{
    if s.len() == 0 {
        assert(tokens.map_values(|token: TokenView| token.raw()) =~= Seq::<Seq<char>>::empty());
        assert(raw_text(tokens) =~= s);
    } else {
        lemma_tokenize_unfolds(s, tokens);
        let token = first_token(s)->Ok_0;
        let consumed = token.raw().len() as int;
        let more = tokenize(s.skip(consumed))->Ok_0;
        lemma_first_token_is_faithful(s, token);
        lemma_tokens_cover_input(s.skip(consumed), more);
        lemma_raw_text_prepend(token, more);
        assert(s.take(consumed) + s.skip(consumed) =~= s);
    }
}

/// Every token of an input agrees with its substring.
pub proof fn lemma_tokens_are_well_formed(s: Seq<char>, tokens: Seq<TokenView>)
    requires
        tokenize(s) == Ok::<Seq<TokenView>, Seq<char>>(tokens),
    ensures
        forall|i: int| 0 <= i < tokens.len() ==> (#[trigger] tokens[i]).well_formed(),
    decreases s.len(),
{
    if s.len() > 0 {
        lemma_tokenize_unfolds(s, tokens);
        let token = first_token(s)->Ok_0;
        let consumed = token.raw().len() as int;
        let more = tokenize(s.skip(consumed))->Ok_0;
        lemma_first_token_is_faithful(s, token);
        lemma_tokens_are_well_formed(s.skip(consumed), more);
        assert forall|i: int| 0 <= i < tokens.len() implies (#[trigger] tokens[i]).well_formed() by {
            if i > 0 {
                assert(tokens[i] == more[i - 1]);
            }
        }
    }
}

/// Tokenizing is repeatable: two outcomes of [`super::lex`] on one input
/// are equal, token for token and field for field, or the same error.
pub proof fn lemma_lex_is_repeatable(
    input: Seq<char>,
    first: Result<Vec<Token>, LexError>,
    second: Result<Vec<Token>, LexError>,
)
    requires
        outcome(first) == tokenize(input),
        outcome(second) == tokenize(input),
    ensures
        outcome(first) == outcome(second),
{
}

} // verus!
