//! The dice-expression parser: from a matched substring to quantity, size
//! and modifiers.

use super::chars::{
    all_of, chars_of, is_run, lemma_run_len, lemma_run_len_is, run_len, CharClass,
};
use super::lex_error::{dice_expression_message, parse_number_message, LexError};
use super::number::{decimal_value, value_of};
use super::pattern::{capture_groups, pattern_groups, DICE_PATTERN};
use super::scan::{dice_len, is_dice_expression, modifier_len};
use super::{is_modifier, DiceExpressionData, DiceExpressionView};
use vstd::prelude::*;
use vstd::string::*;

verus! {

/// The text that an optional group matched; empty where it took no part.
pub open spec fn group_text(group: Option<Seq<char>>) -> Seq<char> {
    match group {
        Some(text) => text,
        None => Seq::empty(),
    }
}

/// Whether `groups` splits `text` as a dice expression: group 0 the whole
/// text, group 1 an optional quantity, group 2 the size, group 3 an optional
/// modifier suffix, each of its shape, and the three together with the `d`
/// between quantity and size exactly the text.
pub open spec fn decomposes(text: Seq<char>, groups: Seq<Option<Seq<char>>>) -> bool {
    &&& groups.len() == 4
    &&& groups[0] == Some(text)
    &&& groups[1] matches Some(quantity) ==> is_run(quantity, CharClass::Digit)
    &&& groups[2] matches Some(size) && is_run(size, CharClass::Digit)
    &&& groups[3] matches Some(modifiers) ==> is_modifier(modifiers)
    &&& text == group_text(groups[1]) + seq!['d'] + group_text(groups[2]) + group_text(groups[3])
}

/// The quantity or size that a digit run of a dice expression writes: its
/// decimal value where that is at least 1 and fits in 64 bits, else the
/// number-parse error for the run.
pub open spec fn dice_number(digits: Seq<char>) -> Result<nat, Seq<char>> {
    if 1 <= decimal_value(digits) <= u64::MAX {
        Ok(decimal_value(digits))
    } else {
        Err(parse_number_message(digits))
    }
}

/// The outcome of parsing the dice expression `text`, given the groups that
/// the pattern engine found in it.
///
/// Where the groups do not split the text as a dice expression, the
/// decomposition error for the text. Otherwise the quantity is the number of
/// group 1, or 1 where that group is absent; the size is the number of group
/// 2; the modifiers are the text of group 3. A quantity that is no number
/// fails first, then a size.
pub open spec fn dice_data(text: Seq<char>, groups: Option<Seq<Option<Seq<char>>>>) -> Result<
    DiceExpressionView,
    Seq<char>,
> {
    if groups is Some && decomposes(text, groups->0) {
        let found = groups->0;
        let quantity = match found[1] {
            Some(digits) => dice_number(digits),
            None => Ok(1nat),
        };
        match (quantity, dice_number(group_text(found[2]))) {
            (Err(message), _) => Err(message),
            (Ok(_), Err(message)) => Err(message),
            (Ok(quantity), Ok(size)) => Ok(
                DiceExpressionView { quantity, size, modifiers: group_text(found[3]) },
            ),
        }
    } else {
        Err(dice_expression_message(text))
    }
}

/// The groups of the dice expression `text`, read directly off the text:
/// the whole text; the digits before the `d`, if any; the digits after it;
/// what follows those, if anything.
pub open spec fn dice_groups(text: Seq<char>) -> Seq<Option<Seq<char>>> {
    let quantity = run_len(text, CharClass::Digit, 0) as int;
    let size = run_len(text, CharClass::Digit, quantity + 1) as int;
    let suffix = quantity + 1 + size;
    seq![
        Some(text),
        if quantity > 0 {
            Some(text.subrange(0, quantity))
        } else {
            None
        },
        Some(text.subrange(quantity + 1, suffix)),
        if suffix < text.len() {
            Some(text.subrange(suffix, text.len() as int))
        } else {
            None
        },
    ]
}

/// What the dice expression `text` says: the outcome of parsing it with the
/// groups read directly off the text.
pub open spec fn dice_reading(text: Seq<char>) -> Result<DiceExpressionView, Seq<char>> {
    dice_data(text, Some(dice_groups(text)))
}

/// Only a dice expression can be split as one, and only in one way: groups
/// that split `text` are the groups read directly off the text.
pub proof fn lemma_decomposition_is_unique(text: Seq<char>, groups: Seq<Option<Seq<char>>>)
    requires
        decomposes(text, groups),
    ensures
        is_dice_expression(text),
        groups == dice_groups(text),
{
    let quantity = group_text(groups[1]);
    let size = group_text(groups[2]);
    let modifiers = group_text(groups[3]);
    let d = quantity.len() as int;
    let suffix = d + 1 + size.len();
    assert(text.len() == suffix + modifiers.len());
    assert forall|i: int| 0 <= i < d implies CharClass::Digit.contains(#[trigger] text[i]) by {
        assert(text[i] == quantity[i]);
    }
    assert(text[d] == 'd');
    lemma_run_len_is(text, CharClass::Digit, 0, d as nat);
    assert forall|i: int| d + 1 <= i < suffix implies CharClass::Digit.contains(
        #[trigger] text[i],
    ) by {
        assert(text[i] == size[i - d - 1]);
    }
    if suffix < text.len() {
        assert(text[suffix] == modifiers[0]);
        assert forall|i: int| suffix <= i < text.len() implies CharClass::Alphanumeric.contains(
            #[trigger] text[i],
        ) by {
            assert(text[i] == modifiers[i - suffix]);
        }
        lemma_run_len_is(text, CharClass::Alphanumeric, suffix, modifiers.len());
    }
    lemma_run_len_is(text, CharClass::Digit, d + 1, size.len());
    assert(modifier_len(text, suffix) == modifiers.len());
    assert(dice_len(text) == text.len());
    assert(quantity =~= text.subrange(0, d));
    assert(size =~= text.subrange(d + 1, suffix));
    assert(modifiers =~= text.subrange(suffix, text.len() as int));
    assert(groups =~= dice_groups(text));
}

/// Every dice expression is split by the groups read directly off it.
pub proof fn lemma_dice_expression_decomposes(text: Seq<char>)
    requires
        is_dice_expression(text),
    ensures
        decomposes(text, dice_groups(text)),
{
    let d = run_len(text, CharClass::Digit, 0) as int;
    lemma_run_len(text, CharClass::Digit, 0);
    let size = run_len(text, CharClass::Digit, d + 1);
    lemma_run_len(text, CharClass::Digit, d + 1);
    let suffix = d + 1 + size;
    if suffix < text.len() {
        lemma_run_len(text, CharClass::Alphanumeric, suffix);
    }
    let groups = dice_groups(text);
    assert(text =~= group_text(groups[1]) + seq!['d'] + group_text(groups[2]) + group_text(
        groups[3],
    ));
}

/// Whatever groups the pattern engine finds, parsing `text` with them gives
/// what the text says or the decomposition error for the text, and gives
/// what the text says where the groups split it.
pub proof fn lemma_dice_data_is_reading(text: Seq<char>, groups: Option<Seq<Option<Seq<char>>>>)
    ensures
        dice_data(text, groups) == dice_reading(text) || dice_data(text, groups) == Err::<
            DiceExpressionView,
            Seq<char>,
        >(dice_expression_message(text)),
        groups is Some && decomposes(text, groups->0) ==> dice_data(text, groups) == dice_reading(
            text,
        ),
{
    if groups is Some && decomposes(text, groups->0) {
        lemma_decomposition_is_unique(text, groups->0);
    }
}

/// Dice expression data that parsing gives meet the invariant of the data:
/// quantity and size are at least 1, and the modifiers are absent or a
/// letter followed by letters and digits.
pub proof fn lemma_dice_data_well_formed(
    text: Seq<char>,
    groups: Option<Seq<Option<Seq<char>>>>,
    data: DiceExpressionView,
)
    requires
        dice_data(text, groups) == Ok::<DiceExpressionView, Seq<char>>(data),
    ensures
        data.well_formed(),
{
}

/// Tests whether `text` is a non-empty run of digits.
fn is_digit_run(text: &str) -> (found: bool)
    ensures
        found == is_run(text@, CharClass::Digit),
{
    let chars = chars_of(text);
    chars.len() > 0 && all_of(chars.as_slice(), CharClass::Digit)
}

/// Tests whether `text` is a modifier suffix.
fn is_modifier_text(text: &str) -> (found: bool)
    ensures
        found == is_modifier(text@),
{
    let chars = chars_of(text);
    chars.len() > 0 && CharClass::Letter.has(chars[0]) && all_of(
        chars.as_slice(),
        CharClass::Alphanumeric,
    )
}

/// Reads the number that a digit run of a dice expression writes.
fn parse_dice_number(digits: &str) -> (result: Result<u64, LexError>)
    requires
        is_run(digits@, CharClass::Digit),
    ensures
        match result {
            Ok(value) => dice_number(digits@) == Ok::<nat, Seq<char>>(value as nat),
            Err(error) => dice_number(digits@) == Err::<nat, Seq<char>>(error@),
        },
{
    let chars = chars_of(digits);
    match value_of(chars.as_slice()) {
        Some(value) => {
            if value >= 1 {
                Ok(value)
            } else {
                Err(LexError::parse_number(digits))
            }
        },
        None => Err(LexError::parse_number(digits)),
    }
}

/// Checks the groups that the pattern engine found in `text` and reads
/// quantity, size and modifiers from them.
pub fn parse_dice_groups(text: &str, groups: Option<Vec<Option<String>>>) -> (result: Result<
    DiceExpressionData,
    LexError,
>)
    ensures
        match result {
            Ok(data) => dice_data(text@, groups.deep_view()) == Ok::<
                DiceExpressionView,
                Seq<char>,
            >(data@),
            Err(error) => dice_data(text@, groups.deep_view()) == Err::<
                DiceExpressionView,
                Seq<char>,
            >(error@),
        },
{
    let found = match groups {
        Some(found) => found,
        None => {
            return Err(LexError::dice_expression(text));
        },
    };
    if found.len() != 4 {
        return Err(LexError::dice_expression(text));
    }
    let ghost views = groups.deep_view()->0;
    assert(views.len() == 4);
    assert(views[0] == found@[0].deep_view());
    assert(views[1] == found@[1].deep_view());
    assert(views[2] == found@[2].deep_view());
    assert(views[3] == found@[3].deep_view());
    let size_text: &str = match &found[2] {
        Some(size) => size.as_str(),
        None => {
            return Err(LexError::dice_expression(text));
        },
    };
    let whole = String::from_str(text);
    match &found[0] {
        Some(matched) => {
            if *matched != whole {
                return Err(LexError::dice_expression(text));
            }
        },
        None => {
            return Err(LexError::dice_expression(text));
        },
    }
    let mut joined = String::new();
    match &found[1] {
        Some(quantity) => {
            if !is_digit_run(quantity.as_str()) {
                return Err(LexError::dice_expression(text));
            }
            joined.append(quantity.as_str());
        },
        None => {},
    }
    joined.append("d");
    if !is_digit_run(size_text) {
        return Err(LexError::dice_expression(text));
    }
    joined.append(size_text);
    match &found[3] {
        Some(modifiers) => {
            if !is_modifier_text(modifiers.as_str()) {
                return Err(LexError::dice_expression(text));
            }
            joined.append(modifiers.as_str());
        },
        None => {},
    }
    proof {
        reveal_strlit("d");
        assert("d"@ =~= seq!['d']);
        assert(joined@ =~= group_text(views[1]) + seq!['d'] + group_text(views[2]) + group_text(
            views[3],
        ));
    }
    if joined != whole {
        return Err(LexError::dice_expression(text));
    }
    assert(decomposes(text@, views));
    let quantity: u64 = match &found[1] {
        Some(digits) => parse_dice_number(digits.as_str())?,
        None => 1,
    };
    let size: u64 = parse_dice_number(size_text)?;
    let modifiers: String = match &found[3] {
        Some(modifiers) => modifiers.clone(),
        None => String::new(),
    };
    Ok(DiceExpressionData::new(quantity, size, modifiers))
}

/// Decomposes `text`, a substring already selected as a dice expression,
/// into quantity, size and modifiers.
pub fn parse_dice_expression(text: &str) -> (result: Result<DiceExpressionData, LexError>)
    ensures
        match result {
            Ok(data) => dice_data(text@, pattern_groups(DICE_PATTERN@, text@)) == Ok::<
                DiceExpressionView,
                Seq<char>,
            >(data@),
            Err(error) => dice_data(text@, pattern_groups(DICE_PATTERN@, text@)) == Err::<
                DiceExpressionView,
                Seq<char>,
            >(error@),
        },
{
    parse_dice_groups(text, capture_groups(DICE_PATTERN, text))
}

} // verus!
