//! Character classes, runs of characters, and conversions between strings
//! and character sequences.

use vstd::prelude::*;
use vstd::string::*;

verus! {

/// The decimal digits `0` to `9`.
pub open spec fn is_digit(c: char) -> bool {
    '0' <= c <= '9'
}

/// The letters `A` to `Z` and `a` to `z`.
pub open spec fn is_letter(c: char) -> bool {
    ('A' <= c <= 'Z') || ('a' <= c <= 'z')
}

/// The four arithmetic operator symbols.
pub open spec fn is_operator(c: char) -> bool {
    c == '+' || c == '-' || c == '*' || c == '/'
}

/// The characters with the Unicode property `White_Space`.
pub open spec fn is_whitespace(c: char) -> bool {
    ||| '\u{9}' <= c <= '\u{D}'
    ||| c == '\u{20}'
    ||| c == '\u{85}'
    ||| c == '\u{A0}'
    ||| c == '\u{1680}'
    ||| '\u{2000}' <= c <= '\u{200A}'
    ||| c == '\u{2028}'
    ||| c == '\u{2029}'
    ||| c == '\u{202F}'
    ||| c == '\u{205F}'
    ||| c == '\u{3000}'
}

/// A set of characters that a token pattern is built from.
#[derive(Debug, Clone, Copy, PartialEq, Eq)]
pub enum CharClass {
    /// `0` to `9`.
    Digit,
    /// `A` to `Z` and `a` to `z`.
    Letter,
    /// A letter or a digit.
    Alphanumeric,
    /// One of `+ - * /`.
    Operator,
    /// A character with the Unicode property `White_Space`.
    Whitespace,
    /// Any character that is not whitespace.
    Visible,
}

impl CharClass {
    /// Whether `c` belongs to this class.
    pub open spec fn contains(self, c: char) -> bool {
        match self {
            CharClass::Digit => is_digit(c),
            CharClass::Letter => is_letter(c),
            CharClass::Alphanumeric => is_letter(c) || is_digit(c),
            CharClass::Operator => is_operator(c),
            CharClass::Whitespace => is_whitespace(c),
            CharClass::Visible => !is_whitespace(c),
        }
    }

    /// Tests whether `c` belongs to this class.
    pub fn has(self, c: char) -> (found: bool)
        ensures
            found == self.contains(c),
    {
        match self {
            CharClass::Digit => '0' <= c && c <= '9',
            CharClass::Letter => ('A' <= c && c <= 'Z') || ('a' <= c && c <= 'z'),
            CharClass::Alphanumeric => {
                ('A' <= c && c <= 'Z') || ('a' <= c && c <= 'z') || ('0' <= c && c <= '9')
            },
            CharClass::Operator => c == '+' || c == '-' || c == '*' || c == '/',
            CharClass::Whitespace => whitespace(c),
            CharClass::Visible => !whitespace(c),
        }
    }
}

/// Tests whether `c` has the Unicode property `White_Space`.
fn whitespace(c: char) -> (found: bool)
    ensures
        found == is_whitespace(c),
{
    ('\u{9}' <= c && c <= '\u{D}') || c == '\u{20}' || c == '\u{85}' || c == '\u{A0}' || c
        == '\u{1680}' || ('\u{2000}' <= c && c <= '\u{200A}') || c == '\u{2028}' || c == '\u{2029}'
        || c == '\u{202F}' || c == '\u{205F}' || c == '\u{3000}'
}

/// The characters of `text`, in order.
pub fn chars_of(text: &str) -> (chars: Vec<char>)
    ensures
        chars@ == text@,
{
    let mut chars: Vec<char> = Vec::new();
    for c in it: text.chars()
        invariant
            it.seq() == text@,
            chars@ == it.seq().take(it.index()),
    {
        chars.push(c);
    }
    chars
}

/// Specifies `String::push` of the standard library, assumed and not proved:
/// the string after the call is the string before it with `c` appended.
pub assume_specification[ String::push ](text: &mut String, c: char)
    ensures
        final(text)@ == old(text)@.push(c),
;

/// The characters of `chars` from index `from` up to, not including, `to`,
/// as a string.
pub(crate) fn string_of(chars: &[char], from: usize, to: usize) -> (text: String)
    requires
        from <= to <= chars@.len(),
    ensures
        text@ == chars@.subrange(from as int, to as int),
{
    let mut text = String::new();
    let mut i: usize = from;
    while i < to
        invariant
            from <= i <= to <= chars@.len(),
            text@ == chars@.subrange(from as int, i as int),
        decreases to - i,
    {
        text.push(chars[i]);
        i += 1;
        assert(text@ =~= chars@.subrange(from as int, i as int));
    }
    text
}

/// The length of the longest run of characters of `class` in `s` that
/// begins at index `from`; 0 where `from` is not an index of `s`.
pub open spec fn run_len(s: Seq<char>, class: CharClass, from: int) -> nat
    decreases s.len() - from,
{
    if 0 <= from < s.len() && class.contains(s[from]) {
        1 + run_len(s, class, from + 1)
    } else {
        0
    }
}

/// Whether every character of `s` belongs to `class`.
pub open spec fn all_in(s: Seq<char>, class: CharClass) -> bool {
    forall|i: int| 0 <= i < s.len() ==> class.contains(#[trigger] s[i])
}

/// Whether `s` is non-empty and holds characters of `class` only.
pub open spec fn is_run(s: Seq<char>, class: CharClass) -> bool {
    s.len() > 0 && all_in(s, class)
}

/// A run stays inside the sequence, holds characters of its class only, and
/// ends at the end of the sequence or before a character outside the class.
pub proof fn lemma_run_len(s: Seq<char>, class: CharClass, from: int)
    requires
        0 <= from <= s.len(),
    ensures
        from + run_len(s, class, from) <= s.len(),
        forall|i: int|
            from <= i < from + run_len(s, class, from) ==> class.contains(#[trigger] s[i]),
        from + run_len(s, class, from) < s.len() ==> !class.contains(
            s[from + run_len(s, class, from)],
        ),
    decreases s.len() - from,
{
    if from < s.len() && class.contains(s[from]) {
        lemma_run_len(s, class, from + 1);
    }
}

/// A stretch of `len` characters of `class` that ends at the end of the
/// sequence or before a character outside the class is the run at `from`.
pub proof fn lemma_run_len_is(s: Seq<char>, class: CharClass, from: int, len: nat)
    requires
        0 <= from,
        from + len <= s.len(),
        forall|i: int| from <= i < from + len ==> class.contains(#[trigger] s[i]),
        from + len < s.len() ==> !class.contains(s[from + len]),
    ensures
        run_len(s, class, from) == len,
    decreases len,
{
    if len > 0 {
        lemma_run_len_is(s, class, from + 1, (len - 1) as nat);
    }
}

/// Inside a stretch of the sequence a run is the run of the sequence, cut
/// off at the end of the stretch.
pub proof fn lemma_run_len_in_subrange(
    s: Seq<char>,
    class: CharClass,
    from: int,
    to: int,
    at: int,
)
    requires
        0 <= from <= at <= to <= s.len(),
    ensures
        run_len(s.subrange(from, to), class, at - from) == if run_len(s, class, at) <= to - at {
            run_len(s, class, at)
        } else {
            (to - at) as nat
        },
    decreases to - at,
{
    if at < to {
        assert(s.subrange(from, to)[at - from] == s[at]);
        if class.contains(s[at]) {
            lemma_run_len_in_subrange(s, class, from, to, at + 1);
        }
    }
}

/// Tests whether every character of `chars` belongs to `class`.
pub fn all_of(chars: &[char], class: CharClass) -> (found: bool)
    ensures
        found == all_in(chars@, class),
{
    let mut i: usize = 0;
    while i < chars.len()
        invariant
            i <= chars@.len(),
            forall|j: int| 0 <= j < i ==> class.contains(#[trigger] chars@[j]),
        decreases chars@.len() - i,
    {
        if !class.has(chars[i]) {
            return false;
        }
        i += 1;
    }
    true
}

/// Measures the run of characters of `class` that begins at `from`.
pub fn scan_run(chars: &[char], class: CharClass, from: usize) -> (len: usize)
    ensures
        len == run_len(chars@, class, from as int),
        from + len <= chars@.len() || len == 0,
{
    let mut end: usize = from;
    while end < chars.len() && class.has(chars[end])
        invariant
            from <= end,
            end <= chars@.len() || end == from,
            run_len(chars@, class, from as int) == (end - from) + run_len(
                chars@,
                class,
                end as int,
            ),
        decreases chars@.len() - end,
    {
        end += 1;
    }
    end - from
}

} // verus!
