//! Classified lexical units. A token pairs a category with the exact matched
//! source substring; the lexeme carries the payload (digits, variable name,
//! literal text) that the program builder later extracts.

use vstd::prelude::*;
use crate::vocab::{Macro, ScopeDir, SymbolKind};

verus! {

/// The closed set of lexical categories. Command and symbol tokens carry
/// their resolved vocabulary entry: an unresolved spelling never lexes.
#[derive(Clone, Copy, Debug, PartialEq, Eq, Structural)]
pub enum Category {
    Comment,
    NewlineMark,
    Terminator,
    NumberLit,
    TextLit,
    EscapedBrace(SymbolKind),
    ScopeDelim(ScopeDir),
    Variable,
    Command(Macro),
    Symbol(SymbolKind),
}

/// A classified lexical unit: its category and the exact matched substring.
#[derive(Clone, Debug, PartialEq, Eq)]
pub struct Token {
    pub category: Category,
    pub lexeme: String,
}

/// The mathematical value of a token: the category with the lexeme as a
/// sequence of characters.
pub struct TokenView {
    pub category: Category,
    pub lexeme: Seq<char>,
}

impl View for Token {
    type V = TokenView;

    open spec fn view(&self) -> TokenView {
        TokenView { category: self.category, lexeme: self.lexeme@ }
    }
}

pub open spec fn is_digit(c: char) -> bool {
    '0' <= c && c <= '9'
}

pub open spec fn is_letter(c: char) -> bool {
    ('a' <= c && c <= 'z') || ('A' <= c && c <= 'Z')
}

pub open spec fn is_space(c: char) -> bool {
    c == ' ' || c == '\t' || c == '\n' || c == '\r'
}

/// The numeric value of one decimal digit character.
pub open spec fn digit_val(c: char) -> nat {
    (c as u32 - '0' as u32) as nat
}

/// The length of the longest all-digit prefix of `s`.
pub open spec fn digits_prefix_len(s: Seq<char>) -> nat
    decreases s.len(),
{
    if s.len() == 0 || !is_digit(s[0]) {
        0
    } else {
        1 + digits_prefix_len(s.skip(1))
    }
}

/// The exact numeric value of a digit string (most significant first).
pub open spec fn dec_val(ds: Seq<char>) -> nat
    decreases ds.len(),
{
    if ds.len() == 0 {
        0
    } else {
        dec_val(ds.drop_last()) * 10 + digit_val(ds.last())
    }
}

/// The value of a digit string reduced modulo 2^64 after every digit: what a
/// 64-bit accumulator computes on arbitrarily long digit strings.
pub open spec fn dec_val_wrap(ds: Seq<char>) -> nat
    decreases ds.len(),
{
    if ds.len() == 0 {
        0
    } else {
        (dec_val_wrap(ds.drop_last()) * 10 + digit_val(ds.last())) % 0x1_0000_0000_0000_0000
    }
}

/// On digit strings whose value fits in 64 bits the wrapping accumulator
/// computes the exact value.
pub proof fn lemma_dec_val_wrap_exact(ds: Seq<char>)
    requires
        dec_val(ds) < 0x1_0000_0000_0000_0000,
    ensures
        dec_val_wrap(ds) == dec_val(ds),
    decreases ds.len(),
{
    if ds.len() > 0 {
        assert(dec_val(ds.drop_last()) <= dec_val(ds.drop_last()) * 10);
        lemma_dec_val_wrap_exact(ds.drop_last());
    }
}

/// A position preceded only by digits and not itself holding one marks the
/// exact length of the leading digit run.
pub proof fn lemma_digits_prefix_len_is(s: Seq<char>, i: int)
    requires
        0 <= i <= s.len(),
        forall|j: int| 0 <= j < i ==> is_digit(#[trigger] s[j]),
        i < s.len() ==> !is_digit(s[i]),
    ensures
        digits_prefix_len(s) == i,
    decreases s.len(),
{
    if s.len() == 0 {
    } else if !is_digit(s[0]) {
    } else {
        assert(forall|j: int| 0 <= j < i - 1 ==> is_digit(#[trigger] s.skip(1)[j]));
        lemma_digits_prefix_len_is(s.skip(1), i - 1);
    }
}

pub open spec fn all_digits(s: Seq<char>) -> bool {
    forall|i: int| 0 <= i < s.len() ==> is_digit(#[trigger] s[i])
}

/// Shape of a numeric lexeme: digits with an optional single decimal point
/// followed by at least one digit, or a leading-dot decimal.
pub open spec fn number_lexeme_wf(s: Seq<char>) -> bool {
    let k = digits_prefix_len(s) as int;
    s.len() > 0 && (k == s.len() || (s[k] == '.' && k + 1 < s.len() && all_digits(s.skip(k + 1))))
}

/// The integer part of a numeric lexeme: its leading digit run.
pub open spec fn number_int_digits(s: Seq<char>) -> Seq<char> {
    s.take(digits_prefix_len(s) as int)
}

/// The value stored for a numeric lexeme: the integer part, truncating any
/// fractional part, reduced modulo 2^64.
pub open spec fn number_value(s: Seq<char>) -> nat {
    dec_val_wrap(number_int_digits(s))
}

/// Shape of a text-literal lexeme: the text command, an opening brace, the
/// content, and a closing brace.
pub open spec fn text_lexeme_wf(s: Seq<char>) -> bool {
    s.len() >= 7 && s.take(6) == seq!['\\', 't', 'e', 'x', 't', '{'] && s[s.len() - 1] == '}'
}

/// The content between the braces of a text-literal lexeme.
pub open spec fn text_content(s: Seq<char>) -> Seq<char> {
    s.subrange(6, s.len() - 1)
}

/// Shape of a variable lexeme: a single letter followed by prime marks.
pub open spec fn variable_lexeme_wf(s: Seq<char>) -> bool {
    s.len() >= 1 && is_letter(s[0]) && forall|i: int| 1 <= i < s.len() ==> s[i] == '\''
}

/// The views of a token vector.
pub open spec fn token_views(ts: Seq<Token>) -> Seq<TokenView> {
    ts.map_values(|t: Token| t@)
}

/// Well-formedness of a token: its lexeme has the shape its category
/// promises, so payload extraction is defined. The lexer establishes this
/// for every token it emits.
pub open spec fn token_wf(t: TokenView) -> bool {
    match t.category {
        Category::NumberLit => number_lexeme_wf(t.lexeme),
        Category::TextLit => text_lexeme_wf(t.lexeme),
        Category::Variable => variable_lexeme_wf(t.lexeme),
        _ => true,
    }
}

} // verus!
