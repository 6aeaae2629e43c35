//! The lexer: converts source text into an ordered sequence of classified
//! tokens, scanning left to right with longest-match-first dispatch.
//!
//! The category priority is fixed and documented by `lex_step`: line
//! comment, explicit newline marker, statement terminator, numeric literal,
//! delimited text literal, escaped brace, scope delimiter, variable, command
//! (resolved against the macro vocabulary), single-character symbol
//! (resolved against the symbol vocabulary). Whitespace between tokens is
//! consumed and produces nothing. Any other input is a fatal error carrying
//! the offending substring and its character position.

use vstd::prelude::*;
use crate::token::{Category, Token, TokenView, is_digit, is_letter, is_space, token_views, token_wf};
use crate::vocab::{ScopeDir, SymbolKind, macro_of_name, symbol_of_char};

verus! {

/// A lexing failure: an input substring that matched no recognized lexical
/// category, or matched the command shape but named an unrecognized
/// spelling. Carries the offending text and its character position.
#[derive(Clone, Debug, PartialEq, Eq)]
pub struct CompileError {
    pub text: String,
    pub pos: usize,
}

/// The index of the first position at or after `i` that does not hold a
/// decimal digit.
pub open spec fn scan_digits(s: Seq<char>, i: int) -> int
    decreases s.len() - i when 0 <= i <= s.len()
{
    if i == s.len() || !is_digit(s[i]) {
        i
    } else {
        scan_digits(s, i + 1)
    }
}

/// The index of the first position at or after `i` that does not hold a
/// letter.
pub open spec fn scan_letters(s: Seq<char>, i: int) -> int
    decreases s.len() - i when 0 <= i <= s.len()
{
    if i == s.len() || !is_letter(s[i]) {
        i
    } else {
        scan_letters(s, i + 1)
    }
}

/// The index of the first position at or after `i` that does not hold a
/// prime mark.
pub open spec fn scan_primes(s: Seq<char>, i: int) -> int
    decreases s.len() - i when 0 <= i <= s.len()
{
    if i == s.len() || s[i] != '\'' {
        i
    } else {
        scan_primes(s, i + 1)
    }
}

/// The index of the first newline at or after `i`, or the end of input.
pub open spec fn scan_to_newline(s: Seq<char>, i: int) -> int
    decreases s.len() - i when 0 <= i <= s.len()
{
    if i == s.len() || s[i] == '\n' {
        i
    } else {
        scan_to_newline(s, i + 1)
    }
}

/// The index of the first closing brace at or after `i`, or the end of
/// input.
pub open spec fn scan_to_close(s: Seq<char>, i: int) -> int
    decreases s.len() - i when 0 <= i <= s.len()
{
    if i == s.len() || s[i] == '}' {
        i
    } else {
        scan_to_close(s, i + 1)
    }
}

pub proof fn lemma_scan_digits(s: Seq<char>, i: int)
    requires
        0 <= i <= s.len(),
    ensures
        i <= scan_digits(s, i) <= s.len(),
        forall|j: int| i <= j < scan_digits(s, i) ==> is_digit(#[trigger] s[j]),
        scan_digits(s, i) < s.len() ==> !is_digit(s[scan_digits(s, i)]),
    decreases s.len() - i,
{
    if i < s.len() && is_digit(s[i]) {
        lemma_scan_digits(s, i + 1);
    }
}

pub proof fn lemma_scan_letters(s: Seq<char>, i: int)
    requires
        0 <= i <= s.len(),
    ensures
        i <= scan_letters(s, i) <= s.len(),
        forall|j: int| i <= j < scan_letters(s, i) ==> is_letter(#[trigger] s[j]),
        scan_letters(s, i) < s.len() ==> !is_letter(s[scan_letters(s, i)]),
    decreases s.len() - i,
{
    if i < s.len() && is_letter(s[i]) {
        lemma_scan_letters(s, i + 1);
    }
}

pub proof fn lemma_scan_primes(s: Seq<char>, i: int)
    requires
        0 <= i <= s.len(),
    ensures
        i <= scan_primes(s, i) <= s.len(),
        forall|j: int| i <= j < scan_primes(s, i) ==> #[trigger] s[j] == '\'',
        scan_primes(s, i) < s.len() ==> s[scan_primes(s, i)] != '\'',
    decreases s.len() - i,
{
    if i < s.len() && s[i] == '\'' {
        lemma_scan_primes(s, i + 1);
    }
}

pub proof fn lemma_scan_to_newline(s: Seq<char>, i: int)
    requires
        0 <= i <= s.len(),
    ensures
        i <= scan_to_newline(s, i) <= s.len(),
        forall|j: int| i <= j < scan_to_newline(s, i) ==> #[trigger] s[j] != '\n',
        scan_to_newline(s, i) < s.len() ==> s[scan_to_newline(s, i)] == '\n',
    decreases s.len() - i,
{
    if i < s.len() && s[i] != '\n' {
        lemma_scan_to_newline(s, i + 1);
    }
}

pub proof fn lemma_scan_to_close(s: Seq<char>, i: int)
    requires
        0 <= i <= s.len(),
    ensures
        i <= scan_to_close(s, i) <= s.len(),
        forall|j: int| i <= j < scan_to_close(s, i) ==> #[trigger] s[j] != '}',
        scan_to_close(s, i) < s.len() ==> s[scan_to_close(s, i)] == '}',
    decreases s.len() - i,
{
    if i < s.len() && s[i] != '}' {
        lemma_scan_to_close(s, i + 1);
    }
}

/// The outcome of classifying the input at one position: whitespace to
/// skip, a token together with the position just past it, or a failure.
pub enum LexStep {
    White,
    Tok(TokenView, int),
    Fail,
}

/// Classifies the input at position `i`. The cascade tries the categories
/// in their fixed priority order; categories whose spellings start with
/// distinct characters can never both match, so the one applicable branch
/// is reached directly.
pub open spec fn lex_step(s: Seq<char>, i: int) -> LexStep
    recommends
        0 <= i < s.len(),
{
    let c = s[i];
    if is_space(c) {
        LexStep::White
    } else if c == '%' {
        // Line comment: through and including the end of the line, or to
        // the end of input on the last line.
        let r = scan_to_newline(s, i);
        let end = if r < s.len() {
            r + 1
        } else {
            r
        };
        LexStep::Tok(
            TokenView { category: Category::Comment, lexeme: s.subrange(i, end) },
            end,
        )
    } else if c == '\\' {
        if i + 1 < s.len() && s[i + 1] == '\\' {
            // Explicit newline marker: a doubled backslash.
            LexStep::Tok(
                TokenView { category: Category::NewlineMark, lexeme: s.subrange(i, i + 2) },
                i + 2,
            )
        } else if i + 5 < s.len() && s[i + 1] == 't' && s[i + 2] == 'e' && s[i + 3] == 'x' && s[i
            + 4] == 't' && s[i + 5] == '{' {
            // Text literal: non-greedy to the first closing brace.
            let r = scan_to_close(s, i + 6);
            if r < s.len() {
                LexStep::Tok(
                    TokenView { category: Category::TextLit, lexeme: s.subrange(i, r + 1) },
                    r + 1,
                )
            } else {
                LexStep::Fail
            }
        } else if i + 1 < s.len() && s[i + 1] == '{' {
            LexStep::Tok(
                TokenView {
                    category: Category::EscapedBrace(SymbolKind::EscLBrace),
                    lexeme: s.subrange(i, i + 2),
                },
                i + 2,
            )
        } else if i + 1 < s.len() && s[i + 1] == '}' {
            LexStep::Tok(
                TokenView {
                    category: Category::EscapedBrace(SymbolKind::EscRBrace),
                    lexeme: s.subrange(i, i + 2),
                },
                i + 2,
            )
        } else {
            // Command: a backslash followed by one or more letters,
            // resolved against the macro vocabulary.
            let r = scan_letters(s, i + 1);
            if r > i + 1 {
                match macro_of_name(s.subrange(i + 1, r)) {
                    Some(m) => LexStep::Tok(
                        TokenView { category: Category::Command(m), lexeme: s.subrange(i, r) },
                        r,
                    ),
                    None => LexStep::Fail,
                }
            } else {
                LexStep::Fail
            }
        }
    } else if is_digit(c) || (c == '.' && i + 1 < s.len() && is_digit(s[i + 1])) {
        // Numeric literal: digits with an optional single decimal point
        // followed by digits, or a leading-dot decimal.
        let r = scan_digits(s, i);
        let end = if r < s.len() && s[r] == '.' && r + 1 < s.len() && is_digit(s[r + 1]) {
            scan_digits(s, r + 1)
        } else {
            r
        };
        LexStep::Tok(
            TokenView { category: Category::NumberLit, lexeme: s.subrange(i, end) },
            end,
        )
    } else if c == ';' {
        LexStep::Tok(
            TokenView { category: Category::Terminator, lexeme: s.subrange(i, i + 1) },
            i + 1,
        )
    } else if c == '{' {
        LexStep::Tok(
            TokenView {
                category: Category::ScopeDelim(ScopeDir::Push),
                lexeme: s.subrange(i, i + 1),
            },
            i + 1,
        )
    } else if c == '}' {
        LexStep::Tok(
            TokenView {
                category: Category::ScopeDelim(ScopeDir::Pop),
                lexeme: s.subrange(i, i + 1),
            },
            i + 1,
        )
    } else if is_letter(c) {
        // Variable: a single letter and any following prime marks.
        let r = scan_primes(s, i + 1);
        LexStep::Tok(
            TokenView { category: Category::Variable, lexeme: s.subrange(i, r) },
            r,
        )
    } else {
        match symbol_of_char(c) {
            Some(k) => LexStep::Tok(
                TokenView { category: Category::Symbol(k), lexeme: s.subrange(i, i + 1) },
                i + 1,
            ),
            None => LexStep::Fail,
        }
    }
}

/// The offending substring reported when lexing fails at position `i`: the
/// whole backslash command spelling, or the single unrecognized character.
pub open spec fn err_text(s: Seq<char>, i: int) -> Seq<char>
    recommends
        0 <= i < s.len(),
{
    if s[i] == '\\' {
        s.subrange(i, scan_letters(s, i + 1))
    } else {
        s.subrange(i, i + 1)
    }
}

/// The result of lexing a whole suffix: its token sequence, or the
/// character position of the first failure.
pub enum LexOut {
    Toks(Seq<TokenView>),
    Fail(int),
}

/// Every successful step consumes at least one character and stays within
/// the input.
pub proof fn lemma_lex_step_advances(s: Seq<char>, i: int)
    requires
        0 <= i < s.len(),
    ensures
        forall|t: TokenView, j: int|
            lex_step(s, i) == LexStep::Tok(t, j) ==> i < j <= s.len(),
{
    lemma_scan_to_newline(s, i);
    if i + 6 <= s.len() {
        lemma_scan_to_close(s, i + 6);
    }
    if i + 1 <= s.len() {
        lemma_scan_letters(s, i + 1);
        lemma_scan_primes(s, i + 1);
    }
    lemma_scan_digits(s, i);
    let r = scan_digits(s, i);
    if 0 <= r && r < s.len() && s[r] == '.' && r + 1 < s.len() && is_digit(s[r + 1]) {
        lemma_scan_digits(s, r + 1);
    }
}

/// Lexes the suffix of `s` that starts at position `i`: the full scan,
/// left to right, non-overlapping, whitespace consumed between tokens.
pub open spec fn lex_from(s: Seq<char>, i: int) -> LexOut
    decreases s.len() - i when 0 <= i <= s.len() via lex_from_dec
{
    if i == s.len() {
        LexOut::Toks(Seq::empty())
    } else {
        match lex_step(s, i) {
            LexStep::White => lex_from(s, i + 1),
            LexStep::Tok(t, j) => match lex_from(s, j) {
                LexOut::Toks(ts) => LexOut::Toks(seq![t] + ts),
                LexOut::Fail(p) => LexOut::Fail(p),
            },
            LexStep::Fail => LexOut::Fail(i),
        }
    }
}

#[via_fn]
proof fn lex_from_dec(s: Seq<char>, i: int) {
    if i < s.len() {
        lemma_lex_step_advances(s, i);
    }
}

/// The tokens of the whole input, or the position of its first failure.
pub open spec fn spec_lex(s: Seq<char>) -> LexOut {
    lex_from(s, 0)
}

fn space_char(c: char) -> (b: bool)
    ensures
        b == is_space(c),
{
    c == ' ' || c == '\t' || c == '\n' || c == '\r'
}

fn digit_char(c: char) -> (b: bool)
    ensures
        b == is_digit(c),
{
    '0' <= c && c <= '9'
}

fn letter_char(c: char) -> (b: bool)
    ensures
        b == is_letter(c),
{
    ('a' <= c && c <= 'z') || ('A' <= c && c <= 'Z')
}

fn scan_digits_exec(chars: &Vec<char>, from: usize) -> (r: usize)
    requires
        from <= chars@.len(),
    ensures
        r as int == scan_digits(chars@, from as int),
        from <= r <= chars@.len(),
{
    let mut i: usize = from;
    while i < chars.len() && digit_char(chars[i])
        invariant
            from <= i <= chars@.len(),
            scan_digits(chars@, from as int) == scan_digits(chars@, i as int),
        decreases chars@.len() - i,
    {
        i = i + 1;
    }
    i
}

fn scan_letters_exec(chars: &Vec<char>, from: usize) -> (r: usize)
    requires
        from <= chars@.len(),
    ensures
        r as int == scan_letters(chars@, from as int),
        from <= r <= chars@.len(),
{
    let mut i: usize = from;
    while i < chars.len() && letter_char(chars[i])
        invariant
            from <= i <= chars@.len(),
            scan_letters(chars@, from as int) == scan_letters(chars@, i as int),
        decreases chars@.len() - i,
    {
        i = i + 1;
    }
    i
}

fn scan_primes_exec(chars: &Vec<char>, from: usize) -> (r: usize)
    requires
        from <= chars@.len(),
    ensures
        r as int == scan_primes(chars@, from as int),
        from <= r <= chars@.len(),
{
    let mut i: usize = from;
    while i < chars.len() && chars[i] == '\''
        invariant
            from <= i <= chars@.len(),
            scan_primes(chars@, from as int) == scan_primes(chars@, i as int),
        decreases chars@.len() - i,
    {
        i = i + 1;
    }
    i
}

fn scan_to_newline_exec(chars: &Vec<char>, from: usize) -> (r: usize)
    requires
        from <= chars@.len(),
    ensures
        r as int == scan_to_newline(chars@, from as int),
        from <= r <= chars@.len(),
{
    let mut i: usize = from;
    while i < chars.len() && chars[i] != '\n'
        invariant
            from <= i <= chars@.len(),
            scan_to_newline(chars@, from as int) == scan_to_newline(chars@, i as int),
        decreases chars@.len() - i,
    {
        i = i + 1;
    }
    i
}

fn scan_to_close_exec(chars: &Vec<char>, from: usize) -> (r: usize)
    requires
        from <= chars@.len(),
    ensures
        r as int == scan_to_close(chars@, from as int),
        from <= r <= chars@.len(),
{
    let mut i: usize = from;
    while i < chars.len() && chars[i] != '}'
        invariant
            from <= i <= chars@.len(),
            scan_to_close(chars@, from as int) == scan_to_close(chars@, i as int),
        decreases chars@.len() - i,
    {
        i = i + 1;
    }
    i
}

/// The exec outcome of one classification step.
enum StepOut {
    White,
    Emit(Token, usize),
    Fail,
}

/// Takes the lexeme for the character range `[i, j)` out of the source.
fn take_lexeme(src: &str, i: usize, j: usize) -> (r: String)
    requires
        i <= j <= src@.len(),
    ensures
        r@ == src@.subrange(i as int, j as int),
{
    src.substring_char(i, j).to_owned()
}

/// Classifies the input at position `i`, producing the token there and the
/// position just past it.
fn lex_step_exec(src: &str, chars: &Vec<char>, i: usize) -> (r: StepOut)
    requires
        chars@ == src@,
        i < chars@.len(),
    ensures
        (match r {
            StepOut::White => lex_step(chars@, i as int) is White,
            StepOut::Emit(t, j) => i < j <= chars@.len() && lex_step(chars@, i as int)
                == LexStep::Tok(t@, j as int) && token_wf(t@),
            StepOut::Fail => lex_step(chars@, i as int) is Fail,
        }),
{
    let ghost s = chars@;
    let n = chars.len();
    let c = chars[i];
    if space_char(c) {
        StepOut::White
    } else if c == '%' {
        let r = scan_to_newline_exec(chars, i);
        let end = if r < n {
            r + 1
        } else {
            r
        };
        StepOut::Emit(
            Token { category: Category::Comment, lexeme: take_lexeme(src, i, end) },
            end,
        )
    } else if c == '\\' {
        if i + 1 < n && chars[i + 1] == '\\' {
            StepOut::Emit(
                Token { category: Category::NewlineMark, lexeme: take_lexeme(src, i, i + 2) },
                i + 2,
            )
        } else if n - i > 5 && chars[i + 1] == 't' && chars[i + 2] == 'e' && chars[i + 3] == 'x'
            && chars[i + 4] == 't' && chars[i + 5] == '{' {
            let r = scan_to_close_exec(chars, i + 6);
            if r < n {
                let lexeme = take_lexeme(src, i, r + 1);
                proof {
                    lemma_scan_to_close(s, i + 6);
                    assert(lexeme@.take(6) =~= seq!['\\', 't', 'e', 'x', 't', '{']);
                    assert(lexeme@[lexeme@.len() - 1] == s[r as int]);
                }
                StepOut::Emit(Token { category: Category::TextLit, lexeme }, r + 1)
            } else {
                StepOut::Fail
            }
        } else if i + 1 < n && chars[i + 1] == '{' {
            StepOut::Emit(
                Token {
                    category: Category::EscapedBrace(SymbolKind::EscLBrace),
                    lexeme: take_lexeme(src, i, i + 2),
                },
                i + 2,
            )
        } else if i + 1 < n && chars[i + 1] == '}' {
            StepOut::Emit(
                Token {
                    category: Category::EscapedBrace(SymbolKind::EscRBrace),
                    lexeme: take_lexeme(src, i, i + 2),
                },
                i + 2,
            )
        } else {
            let r = scan_letters_exec(chars, i + 1);
            if r > i + 1 {
                let name = vstd::slice::slice_subrange(chars.as_slice(), i + 1, r);
                match crate::vocab::resolve_command(name) {
                    Some(m) => StepOut::Emit(
                        Token { category: Category::Command(m), lexeme: take_lexeme(src, i, r) },
                        r,
                    ),
                    None => StepOut::Fail,
                }
            } else {
                StepOut::Fail
            }
        }
    } else if digit_char(c) || (c == '.' && i + 1 < n && digit_char(chars[i + 1])) {
        let r = scan_digits_exec(chars, i);
        let end = if r < n && chars[r] == '.' && r + 1 < n && digit_char(chars[r + 1]) {
            scan_digits_exec(chars, r + 1)
        } else {
            r
        };
        let lexeme = take_lexeme(src, i, end);
        proof {
            lemma_scan_digits(s, i as int);
            assert forall|t: int| 0 <= t < r - i implies crate::token::is_digit(
                #[trigger] lexeme@[t],
            ) by {
                assert(lexeme@[t] == s[i + t]);
            }
            if (r as int) < end {
                lemma_scan_digits(s, r + 1 as int);
                assert(lexeme@[r - i] == s[r as int]);
                assert forall|t: int| r + 1 - i <= t < end - i implies crate::token::is_digit(
                    #[trigger] lexeme@[t],
                ) by {
                    assert(lexeme@[t] == s[i + t]);
                }
                crate::token::lemma_digits_prefix_len_is(lexeme@, r - i);
                assert(crate::token::all_digits(lexeme@.skip(r - i + 1)));
            } else {
                crate::token::lemma_digits_prefix_len_is(lexeme@, r - i);
            }
            assert(crate::token::number_lexeme_wf(lexeme@));
        }
        StepOut::Emit(Token { category: Category::NumberLit, lexeme }, end)
    } else if c == ';' {
        StepOut::Emit(
            Token { category: Category::Terminator, lexeme: take_lexeme(src, i, i + 1) },
            i + 1,
        )
    } else if c == '{' {
        StepOut::Emit(
            Token {
                category: Category::ScopeDelim(ScopeDir::Push),
                lexeme: take_lexeme(src, i, i + 1),
            },
            i + 1,
        )
    } else if c == '}' {
        StepOut::Emit(
            Token {
                category: Category::ScopeDelim(ScopeDir::Pop),
                lexeme: take_lexeme(src, i, i + 1),
            },
            i + 1,
        )
    } else if letter_char(c) {
        let r = scan_primes_exec(chars, i + 1);
        let lexeme = take_lexeme(src, i, r);
        proof {
            lemma_scan_primes(s, i + 1);
            assert forall|t: int| 1 <= t < lexeme@.len() implies #[trigger] lexeme@[t]
                == '\'' by {
                assert(lexeme@[t] == s[i + t]);
            }
            assert(crate::token::variable_lexeme_wf(lexeme@));
        }
        StepOut::Emit(Token { category: Category::Variable, lexeme }, r)
    } else {
        match crate::vocab::lookup_symbol(c) {
            Some(k) => StepOut::Emit(
                Token { category: Category::Symbol(k), lexeme: take_lexeme(src, i, i + 1) },
                i + 1,
            ),
            None => StepOut::Fail,
        }
    }
}

} // verus!

verus! {

/// Prefixing already-produced tokens onto the outcome of lexing the rest of
/// the input.
pub open spec fn lex_prepend(ts: Seq<TokenView>, o: LexOut) -> LexOut {
    match o {
        LexOut::Toks(us) => LexOut::Toks(ts + us),
        LexOut::Fail(p) => LexOut::Fail(p),
    }
}

/// Collects the characters of a string into a vector.
fn str_chars(src: &str) -> (v: Vec<char>)
    ensures
        v@ == src@,
{
    let n = src.unicode_len();
    let mut v: Vec<char> = Vec::new();
    let mut i: usize = 0;
    while i < n
        invariant
            0 <= i <= n,
            n == src@.len(),
            v@ == src@.take(i as int),
        decreases n - i,
    {
        let c = src.get_char(i);
        v.push(c);
        proof {
            assert(src@.take(i + 1 as int) =~= src@.take(i as int).push(src@[i as int]));
        }
        i = i + 1;
    }
    proof {
        assert(src@.take(n as int) =~= src@);
    }
    v
}

/// Converts a whole source text into its token sequence, or fails on the
/// first input that matches no lexical category, reporting the offending
/// substring and its character position. Every returned token is
/// well-formed, so the program builder can extract its payload.
pub fn tokenize(src: &str) -> (r: Result<Vec<Token>, CompileError>)
    ensures
        (match r {
            Ok(toks) => spec_lex(src@) == LexOut::Toks(token_views(toks@)) && forall|k: int|
                0 <= k < toks@.len() ==> token_wf(#[trigger] toks@[k]@),
            Err(e) => spec_lex(src@) == LexOut::Fail(e.pos as int) && e.pos < src@.len()
                && e.text@ == err_text(src@, e.pos as int),
        }),
{
    let chars = str_chars(src);
    let ghost s = src@;
    let mut toks: Vec<Token> = Vec::new();
    let mut i: usize = 0;
    proof {
        assert(token_views(toks@) =~= Seq::<TokenView>::empty());
        match lex_from(s, 0) {
            LexOut::Toks(us) => {
                assert(Seq::<TokenView>::empty() + us =~= us);
            },
            LexOut::Fail(_) => {},
        }
    }
    while i < chars.len()
        invariant
            chars@ == s,
            s == src@,
            0 <= i <= s.len(),
            spec_lex(s) == lex_prepend(token_views(toks@), lex_from(s, i as int)),
            forall|k: int| 0 <= k < toks@.len() ==> token_wf(#[trigger] toks@[k]@),
        decreases s.len() - i,
    {
        match lex_step_exec(src, &chars, i) {
            StepOut::White => {
                i = i + 1;
            },
            StepOut::Emit(t, j) => {
                proof {
                    assert(token_views(toks@.push(t)) =~= token_views(toks@).push(t@));
                    match lex_from(s, j as int) {
                        LexOut::Toks(ts) => {
                            assert(lex_from(s, i as int) == LexOut::Toks(seq![t@] + ts));
                            assert(token_views(toks@) + (seq![t@] + ts) =~= token_views(
                                toks@,
                            ).push(t@) + ts);
                        },
                        LexOut::Fail(_) => {},
                    }
                }
                toks.push(t);
                i = j;
            },
            StepOut::Fail => {
                let text: String = if chars[i] == '\\' {
                    let r = scan_letters_exec(&chars, i + 1);
                    take_lexeme(src, i, r)
                } else {
                    take_lexeme(src, i, i + 1)
                };
                return Err(CompileError { text, pos: i });
            },
        }
    }
    proof {
        match lex_from(s, i as int) {
            LexOut::Toks(us) => {
                assert(us =~= Seq::<TokenView>::empty());
                assert(token_views(toks@) + us =~= token_views(toks@));
            },
            LexOut::Fail(_) => {},
        }
    }
    Ok(toks)
}

} // verus!
