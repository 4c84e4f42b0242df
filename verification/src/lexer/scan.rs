//! The pattern matcher: which token category matches at the start of the
//! unconsumed input, and how many characters it takes.

use super::chars::{
    is_letter, is_operator, lemma_run_len, lemma_run_len_in_subrange, run_len, scan_run, CharClass,
};
use vstd::prelude::*;

verus! {

/// The token categories, listed in matching priority.
#[derive(Debug, Clone, Copy, PartialEq, Eq)]
pub enum Category {
    /// Dice notation: an optional quantity, `d`, a size, optional modifiers.
    DiceExpression,
    /// A bare number.
    Constant,
    /// One of `+ - * /`.
    Operator,
    /// A run of whitespace.
    Whitespace,
}

/// The length of the modifier suffix that begins at `from`: a letter and
/// the letters and digits that follow it; 0 where no letter stands there.
pub open spec fn modifier_len(s: Seq<char>, from: int) -> nat {
    if 0 <= from < s.len() && is_letter(s[from]) {
        run_len(s, CharClass::Alphanumeric, from)
    } else {
        0
    }
}

/// The length of the dice expression that `s` begins with: the digits of a
/// quantity, if any, the letter `d`, at least one digit of a size, and a
/// modifier suffix, if any; 0 where `s` begins with none.
pub open spec fn dice_len(s: Seq<char>) -> nat {
    let d = run_len(s, CharClass::Digit, 0) as int;
    let size = run_len(s, CharClass::Digit, d + 1);
    if d < s.len() && s[d] == 'd' && size > 0 {
        (d + 1 + size + modifier_len(s, d + 1 + size)) as nat
    } else {
        0
    }
}

/// The length of the longest prefix of `s` that the pattern of `category`
/// matches; 0 where it matches no non-empty prefix.
pub open spec fn match_len(s: Seq<char>, category: Category) -> nat {
    match category {
        Category::DiceExpression => dice_len(s),
        Category::Constant => run_len(s, CharClass::Digit, 0),
        Category::Operator => if s.len() > 0 && is_operator(s[0]) {
            1
        } else {
            0
        },
        Category::Whitespace => run_len(s, CharClass::Whitespace, 0),
    }
}

/// The category that wins at the start of `s`: the first, in the order dice
/// expression, constant, operator, whitespace, whose pattern matches a
/// non-empty prefix, whatever a later one would match.
pub open spec fn first_match(s: Seq<char>) -> Option<Category> {
    if match_len(s, Category::DiceExpression) > 0 {
        Some(Category::DiceExpression)
    } else if match_len(s, Category::Constant) > 0 {
        Some(Category::Constant)
    } else if match_len(s, Category::Operator) > 0 {
        Some(Category::Operator)
    } else if match_len(s, Category::Whitespace) > 0 {
        Some(Category::Whitespace)
    } else {
        None
    }
}

/// Whether `text` is not empty and the pattern of `category` matches the
/// whole of it.
pub open spec fn matches_whole(text: Seq<char>, category: Category) -> bool {
    text.len() > 0 && match_len(text, category) == text.len()
}

/// Whether the whole of `text` is one dice expression.
pub open spec fn is_dice_expression(text: Seq<char>) -> bool {
    matches_whole(text, Category::DiceExpression)
}

/// A match stays inside the sequence.
pub proof fn lemma_match_len_bounds(s: Seq<char>, category: Category)
    ensures
        match_len(s, category) <= s.len(),
{
    match category {
        Category::DiceExpression => {
            let d = run_len(s, CharClass::Digit, 0) as int;
            lemma_run_len(s, CharClass::Digit, 0);
            if d < s.len() {
                let size = run_len(s, CharClass::Digit, d + 1);
                lemma_run_len(s, CharClass::Digit, d + 1);
                if d + 1 + size < s.len() {
                    lemma_run_len(s, CharClass::Alphanumeric, d + 1 + size);
                }
            }
        },
        Category::Constant => lemma_run_len(s, CharClass::Digit, 0),
        Category::Operator => {},
        Category::Whitespace => lemma_run_len(s, CharClass::Whitespace, 0),
    }
}

/// Where a dice expression begins, its pattern takes every digit that the
/// constant pattern would take, and more: the digits of a quantity are never
/// split off as a bare number.
pub proof fn lemma_dice_expression_outruns_constant(s: Seq<char>)
    requires
        match_len(s, Category::DiceExpression) > 0,
    ensures
        first_match(s) == Some(Category::DiceExpression),
        match_len(s, Category::Constant) < match_len(s, Category::DiceExpression),
{
}

/// The prefix that a category matches is matched by it in whole: the
/// matcher selects nothing but what the pattern describes.
pub proof fn lemma_match_is_whole(s: Seq<char>, category: Category)
    requires
        match_len(s, category) > 0,
    ensures
        match_len(s, category) <= s.len(),
        matches_whole(s.take(match_len(s, category) as int), category),
{
    lemma_match_len_bounds(s, category);
    let to = match_len(s, category) as int;
    let text = s.take(to);
    assert(text == s.subrange(0, to));
    match category {
        Category::DiceExpression => {
            let d = run_len(s, CharClass::Digit, 0) as int;
            let suffix = d + 1 + run_len(s, CharClass::Digit, d + 1);
            lemma_run_len_in_subrange(s, CharClass::Digit, 0, to, 0);
            assert(text[d] == s[d]);
            lemma_run_len_in_subrange(s, CharClass::Digit, 0, to, d + 1);
            if suffix < to {
                assert(text[suffix] == s[suffix]);
                lemma_run_len_in_subrange(s, CharClass::Alphanumeric, 0, to, suffix);
            }
        },
        Category::Constant => lemma_run_len_in_subrange(s, CharClass::Digit, 0, to, 0),
        Category::Operator => {
            assert(text[0] == s[0]);
        },
        Category::Whitespace => lemma_run_len_in_subrange(s, CharClass::Whitespace, 0, to, 0),
    }
}

/// Measures the dice expression that `rest` begins with.
fn match_dice(rest: &[char]) -> (len: usize)
    ensures
        len == dice_len(rest@),
        len <= rest@.len(),
{
    let total = rest.len();
    let d = scan_run(rest, CharClass::Digit, 0);
    if d >= total || rest[d] != 'd' {
        return 0;
    }
    let size = scan_run(rest, CharClass::Digit, d + 1);
    if size == 0 {
        return 0;
    }
    let suffix = d + 1 + size;
    let modifiers = if suffix < total && CharClass::Letter.has(rest[suffix]) {
        scan_run(rest, CharClass::Alphanumeric, suffix)
    } else {
        0
    };
    d + 1 + size + modifiers
}

/// Measures the longest prefix of `rest` that the pattern of `category`
/// matches.
pub fn match_at(rest: &[char], category: Category) -> (len: usize)
    ensures
        len == match_len(rest@, category),
        len <= rest@.len(),
{
    match category {
        Category::DiceExpression => match_dice(rest),
        Category::Constant => scan_run(rest, CharClass::Digit, 0),
        Category::Operator => if rest.len() > 0 && CharClass::Operator.has(rest[0]) {
            1
        } else {
            0
        },
        Category::Whitespace => scan_run(rest, CharClass::Whitespace, 0),
    }
}

/// Tries the categories in priority order on `rest` and returns the first
/// that matches a non-empty prefix, with the length of its match.
pub fn next_match(rest: &[char]) -> (found: Option<(Category, usize)>)
    ensures
        match found {
            Some((category, len)) => {
                &&& first_match(rest@) == Some(category)
                &&& len == match_len(rest@, category)
                &&& 0 < len <= rest@.len()
            },
            None => first_match(rest@) is None,
        },
{
    let order = [
        Category::DiceExpression,
        Category::Constant,
        Category::Operator,
        Category::Whitespace,
    ];
    let mut i: usize = 0;
    while i < 4
        invariant
            i <= 4,
            order@ == seq![
                Category::DiceExpression,
                Category::Constant,
                Category::Operator,
                Category::Whitespace,
            ],
            forall|j: int| 0 <= j < i ==> match_len(rest@, #[trigger] order@[j]) == 0,
        decreases 4 - i,
    {
        let len = match_at(rest, order[i]);
        if len > 0 {
            return Some((order[i], len));
        }
        i += 1;
    }
    assert(match_len(rest@, order@[0]) == 0);
    assert(match_len(rest@, order@[1]) == 0);
    assert(match_len(rest@, order@[2]) == 0);
    assert(match_len(rest@, order@[3]) == 0);
    None
}

} // verus!
