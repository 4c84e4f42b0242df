//! The error value of the tokenizer and the messages it can carry.

use vstd::prelude::*;
use vstd::string::*;

verus! {

/// The one error kind of the tokenizer: a human-readable message that names
/// the offending substring and the situation in which it was met.
#[derive(Debug, PartialEq, Eq)]
pub struct LexError {
    message: String,
}

impl View for LexError {
    type V = Seq<char>;

    /// An error is its message.
    closed spec fn view(&self) -> Seq<char> {
        self.message@
    }
}

impl Clone for LexError {
    fn clone(&self) -> (copy: LexError)
        ensures
            copy@ == self@,
    {
        LexError { message: self.message.clone() }
    }
}

/// Message for a substring that was selected as a dice expression but could
/// not be decomposed into quantity, size and modifiers.
pub open spec fn dice_expression_message(expr: Seq<char>) -> Seq<char> {
    "Could not lex Dice Expression \""@ + expr + "\""@
}

/// Message for a digit run whose value is not a representable number.
pub open spec fn parse_number_message(expr: Seq<char>) -> Seq<char> {
    "Failed to parse \""@ + expr + "\" into number"@
}

/// Message for an operator symbol that is not one of `+ - * /`.
pub open spec fn unknown_operator_message(expr: Seq<char>) -> Seq<char> {
    "Unknown Operator \""@ + expr + "\""@
}

/// Message for a position at which no token category matches.
pub open spec fn unknown_token_message(expr: Seq<char>) -> Seq<char> {
    "Unknown Token \""@ + expr + "\""@
}

/// A message tells its situation: messages of different situations differ,
/// whatever substrings they name.
pub proof fn lemma_messages_tell_situations(a: Seq<char>, b: Seq<char>)
    ensures
        dice_expression_message(a) != parse_number_message(b),
        dice_expression_message(a) != unknown_operator_message(b),
        dice_expression_message(a) != unknown_token_message(b),
        parse_number_message(a) != unknown_operator_message(b),
        parse_number_message(a) != unknown_token_message(b),
        unknown_operator_message(a) != unknown_token_message(b),
{
    reveal_strlit("Could not lex Dice Expression \"");
    reveal_strlit("Failed to parse \"");
    reveal_strlit("Unknown Operator \"");
    reveal_strlit("Unknown Token \"");
    assert(dice_expression_message(a)[0] == 'C');
    assert(parse_number_message(a)[0] == 'F');
    assert(parse_number_message(b)[0] == 'F');
    assert(unknown_operator_message(a)[0] == 'U');
    assert(unknown_operator_message(b)[0] == 'U');
    assert(unknown_token_message(b)[0] == 'U');
    assert(unknown_operator_message(a)[8] == 'O');
    assert(unknown_token_message(b)[8] == 'T');
}

/// A message tells its substring: two messages of one situation are equal
/// only where they name the same substring.
pub proof fn lemma_messages_tell_substrings(a: Seq<char>, b: Seq<char>)
    ensures
        dice_expression_message(a) == dice_expression_message(b) ==> a == b,
        parse_number_message(a) == parse_number_message(b) ==> a == b,
        unknown_operator_message(a) == unknown_operator_message(b) ==> a == b,
        unknown_token_message(a) == unknown_token_message(b) ==> a == b,
{
    lemma_framed_tells_substring("Could not lex Dice Expression \""@, "\""@, a, b);
    lemma_framed_tells_substring("Failed to parse \""@, "\" into number"@, a, b);
    lemma_framed_tells_substring("Unknown Operator \""@, "\""@, a, b);
    lemma_framed_tells_substring("Unknown Token \""@, "\""@, a, b);
}

/// Between the same prefix and suffix, equal texts hold equal substrings.
proof fn lemma_framed_tells_substring(
    prefix: Seq<char>,
    suffix: Seq<char>,
    a: Seq<char>,
    b: Seq<char>,
)
    ensures
        prefix + a + suffix == prefix + b + suffix ==> a == b,
{
    let left = prefix + a + suffix;
    let right = prefix + b + suffix;
    if left == right {
        assert(left.len() == prefix.len() + a.len() + suffix.len());
        assert(right.len() == prefix.len() + b.len() + suffix.len());
        assert forall|i: int| 0 <= i < a.len() implies a[i] == b[i] by {
            assert(left[prefix.len() + i] == a[i]);
            assert(right[prefix.len() + i] == b[i]);
        }
        assert(a =~= b);
    }
}

/// `prefix`, then `expr`, then `suffix`, as one owned string.
fn framed(prefix: &str, expr: &str, suffix: &str) -> (text: String)
    ensures
        text@ == prefix@ + expr@ + suffix@,
{
    let mut text = String::from_str(prefix);
    text.append(expr);
    text.append(suffix);
    text
}

impl LexError {
    /// An error that carries `message` verbatim.
    pub fn new(message: &str) -> (error: LexError)
        ensures
            error@ == message@,
    {
        LexError { message: String::from_str(message) }
    }

    /// The error for a dice expression `expr` that could not be decomposed.
    pub fn dice_expression(expr: &str) -> (error: LexError)
        ensures
            error@ == dice_expression_message(expr@),
    {
        LexError { message: framed("Could not lex Dice Expression \"", expr, "\"") }
    }

    /// The error for a digit run `expr` that is not a representable number.
    pub fn parse_number(expr: &str) -> (error: LexError)
        ensures
            error@ == parse_number_message(expr@),
    {
        LexError { message: framed("Failed to parse \"", expr, "\" into number") }
    }

    /// The error for an operator symbol `expr` outside `+ - * /`.
    pub fn unknown_operator(expr: &str) -> (error: LexError)
        ensures
            error@ == unknown_operator_message(expr@),
    {
        LexError { message: framed("Unknown Operator \"", expr, "\"") }
    }

    /// The error for input `expr` that no token category matches.
    pub fn unknown_token(expr: &str) -> (error: LexError)
        ensures
            error@ == unknown_token_message(expr@),
    {
        LexError { message: framed("Unknown Token \"", expr, "\"") }
    }

    /// The message this error carries.
    pub fn message(&self) -> (message: &str)
        ensures
            message@ == self@,
    {
        self.message.as_str()
    }
}

} // verus!
