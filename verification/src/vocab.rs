//! The token vocabulary: the closed, bidirectional mapping between source
//! spellings and the symbol and macro categories. Rendering is the exact
//! inverse of recognition for every entry, which is proved below.

use vstd::prelude::*;

verus! {

/// The 29 symbol kinds: 27 single ASCII punctuation characters plus the two
/// escaped-brace spellings, which are distinct from the bare scope braces.
#[derive(Clone, Copy, Debug, PartialEq, Eq, Structural)]
pub enum SymbolKind {
    Bang,
    Quote,
    Hash,
    Dollar,
    Amp,
    Prime,
    LParen,
    RParen,
    Star,
    Plus,
    Comma,
    Minus,
    Dot,
    Slash,
    Colon,
    Less,
    Equals,
    Greater,
    Question,
    At,
    LBracket,
    RBracket,
    Caret,
    Underscore,
    Backtick,
    Pipe,
    Tilde,
    EscLBrace,
    EscRBrace,
}

/// The closed set of named commands recognized after a backslash.
#[derive(Clone, Copy, Debug, PartialEq, Eq, Structural)]
pub enum Macro {
    Comment,
    Times,
    Div,
    Frac,
    Display,
    Prompt,
    Limit,
    LetVar,
}

/// The direction of a bare grouping delimiter.
#[derive(Clone, Copy, Debug, PartialEq, Eq, Structural)]
pub enum ScopeDir {
    Push,
    Pop,
}

/// The source (and output) spelling of a symbol kind.
pub open spec fn symbol_spelling(k: SymbolKind) -> Seq<char> {
    match k {
        SymbolKind::Bang => seq!['!'],
        SymbolKind::Quote => seq!['"'],
        SymbolKind::Hash => seq!['#'],
        SymbolKind::Dollar => seq!['$'],
        SymbolKind::Amp => seq!['&'],
        SymbolKind::Prime => seq!['\''],
        SymbolKind::LParen => seq!['('],
        SymbolKind::RParen => seq![')'],
        SymbolKind::Star => seq!['*'],
        SymbolKind::Plus => seq!['+'],
        SymbolKind::Comma => seq![','],
        SymbolKind::Minus => seq!['-'],
        SymbolKind::Dot => seq!['.'],
        SymbolKind::Slash => seq!['/'],
        SymbolKind::Colon => seq![':'],
        SymbolKind::Less => seq!['<'],
        SymbolKind::Equals => seq!['='],
        SymbolKind::Greater => seq!['>'],
        SymbolKind::Question => seq!['?'],
        SymbolKind::At => seq!['@'],
        SymbolKind::LBracket => seq!['['],
        SymbolKind::RBracket => seq![']'],
        SymbolKind::Caret => seq!['^'],
        SymbolKind::Underscore => seq!['_'],
        SymbolKind::Backtick => seq!['`'],
        SymbolKind::Pipe => seq!['|'],
        SymbolKind::Tilde => seq!['~'],
        SymbolKind::EscLBrace => seq!['\\', '{'],
        SymbolKind::EscRBrace => seq!['\\', '}'],
    }
}

/// Classification of a single punctuation character against the symbol
/// vocabulary. Unmapped characters fail classification with `None`.
pub open spec fn symbol_of_char(c: char) -> Option<SymbolKind> {
    if c == '!' {
        Some(SymbolKind::Bang)
    } else if c == '"' {
        Some(SymbolKind::Quote)
    } else if c == '#' {
        Some(SymbolKind::Hash)
    } else if c == '$' {
        Some(SymbolKind::Dollar)
    } else if c == '&' {
        Some(SymbolKind::Amp)
    } else if c == '\'' {
        Some(SymbolKind::Prime)
    } else if c == '(' {
        Some(SymbolKind::LParen)
    } else if c == ')' {
        Some(SymbolKind::RParen)
    } else if c == '*' {
        Some(SymbolKind::Star)
    } else if c == '+' {
        Some(SymbolKind::Plus)
    } else if c == ',' {
        Some(SymbolKind::Comma)
    } else if c == '-' {
        Some(SymbolKind::Minus)
    } else if c == '.' {
        Some(SymbolKind::Dot)
    } else if c == '/' {
        Some(SymbolKind::Slash)
    } else if c == ':' {
        Some(SymbolKind::Colon)
    } else if c == '<' {
        Some(SymbolKind::Less)
    } else if c == '=' {
        Some(SymbolKind::Equals)
    } else if c == '>' {
        Some(SymbolKind::Greater)
    } else if c == '?' {
        Some(SymbolKind::Question)
    } else if c == '@' {
        Some(SymbolKind::At)
    } else if c == '[' {
        Some(SymbolKind::LBracket)
    } else if c == ']' {
        Some(SymbolKind::RBracket)
    } else if c == '^' {
        Some(SymbolKind::Caret)
    } else if c == '_' {
        Some(SymbolKind::Underscore)
    } else if c == '`' {
        Some(SymbolKind::Backtick)
    } else if c == '|' {
        Some(SymbolKind::Pipe)
    } else if c == '~' {
        Some(SymbolKind::Tilde)
    } else {
        None
    }
}

/// The command name of a macro, without the leading backslash.
pub open spec fn macro_name(m: Macro) -> Seq<char> {
    match m {
        Macro::Comment => seq!['c', 'o', 'm', 'm', 'e', 'n', 't'],
        Macro::Times => seq!['t', 'i', 'm', 'e', 's'],
        Macro::Div => seq!['d', 'i', 'v'],
        Macro::Frac => seq!['f', 'r', 'a', 'c'],
        Macro::Display => seq!['d', 'i', 's', 'p', 'l', 'a', 'y'],
        Macro::Prompt => seq!['p', 'r', 'o', 'm', 'p', 't'],
        Macro::Limit => seq!['l', 'i', 'm'],
        Macro::LetVar => seq!['l', 'e', 't', 'v', 'a', 'r'],
    }
}

/// The full source (and output) spelling of a macro: a backslash followed by
/// its command name.
pub open spec fn macro_spelling(m: Macro) -> Seq<char> {
    seq!['\\'] + macro_name(m)
}

/// Resolution of a command name (the letters after the backslash) against the
/// macro vocabulary. Unrecognized names fail classification with `None`.
pub open spec fn macro_of_name(name: Seq<char>) -> Option<Macro> {
    if name == macro_name(Macro::Comment) {
        Some(Macro::Comment)
    } else if name == macro_name(Macro::Times) {
        Some(Macro::Times)
    } else if name == macro_name(Macro::Div) {
        Some(Macro::Div)
    } else if name == macro_name(Macro::Frac) {
        Some(Macro::Frac)
    } else if name == macro_name(Macro::Display) {
        Some(Macro::Display)
    } else if name == macro_name(Macro::Prompt) {
        Some(Macro::Prompt)
    } else if name == macro_name(Macro::Limit) {
        Some(Macro::Limit)
    } else if name == macro_name(Macro::LetVar) {
        Some(Macro::LetVar)
    } else {
        None
    }
}

/// Resolution of a whole symbol spelling, as the lexer sees it: either a
/// single punctuation character or one of the two escaped-brace spellings.
pub open spec fn symbol_of_spelling(s: Seq<char>) -> Option<SymbolKind> {
    if s.len() == 1 {
        symbol_of_char(s[0])
    } else if s == seq!['\\', '{'] {
        Some(SymbolKind::EscLBrace)
    } else if s == seq!['\\', '}'] {
        Some(SymbolKind::EscRBrace)
    } else {
        None
    }
}

/// Resolution of a whole macro spelling (backslash included).
pub open spec fn macro_of_spelling(s: Seq<char>) -> Option<Macro> {
    if s.len() >= 1 && s[0] == '\\' {
        macro_of_name(s.skip(1))
    } else {
        None
    }
}

/// Law: recognizing the rendered spelling of any symbol kind gives back
/// exactly that kind. The vocabulary is a total, invertible mapping.
pub proof fn lemma_symbol_round_trip()
    ensures
        forall|k: SymbolKind| #[trigger] symbol_of_spelling(symbol_spelling(k)) == Some(k),
{
    assert forall|k: SymbolKind| #[trigger] symbol_of_spelling(symbol_spelling(k)) == Some(k) by {
        match k {
            SymbolKind::EscLBrace => {
                assert(symbol_spelling(k) == seq!['\\', '{']);
                assert(symbol_spelling(k).len() == 2);
            },
            SymbolKind::EscRBrace => {
                assert(symbol_spelling(k) == seq!['\\', '}']);
                assert(symbol_spelling(k) != seq!['\\', '{']);
                assert(symbol_spelling(k).len() == 2);
            },
            _ => {
                assert(symbol_spelling(k).len() == 1);
            },
        }
    }
}

/// Law: recognizing the rendered spelling of any macro kind gives back
/// exactly that kind.
pub proof fn lemma_macro_round_trip()
    ensures
        forall|m: Macro| #[trigger] macro_of_spelling(macro_spelling(m)) == Some(m),
{
    assert forall|m: Macro| #[trigger] macro_of_spelling(macro_spelling(m)) == Some(m) by {
        assert(macro_spelling(m).skip(1) =~= macro_name(m));
        match m {
            Macro::Comment => {},
            Macro::Times => {},
            Macro::Div => {},
            Macro::Frac => {},
            Macro::Display => {},
            Macro::Prompt => {},
            Macro::Limit => {},
            Macro::LetVar => {},
        }
    }
}

/// Classifies one punctuation character against the symbol vocabulary.
pub fn lookup_symbol(c: char) -> (r: Option<SymbolKind>)
    ensures
        r == symbol_of_char(c),
{
    if c == '!' {
        Some(SymbolKind::Bang)
    } else if c == '"' {
        Some(SymbolKind::Quote)
    } else if c == '#' {
        Some(SymbolKind::Hash)
    } else if c == '$' {
        Some(SymbolKind::Dollar)
    } else if c == '&' {
        Some(SymbolKind::Amp)
    } else if c == '\'' {
        Some(SymbolKind::Prime)
    } else if c == '(' {
        Some(SymbolKind::LParen)
    } else if c == ')' {
        Some(SymbolKind::RParen)
    } else if c == '*' {
        Some(SymbolKind::Star)
    } else if c == '+' {
        Some(SymbolKind::Plus)
    } else if c == ',' {
        Some(SymbolKind::Comma)
    } else if c == '.' {
        Some(SymbolKind::Dot)
    } else if c == '-' {
        Some(SymbolKind::Minus)
    } else if c == '/' {
        Some(SymbolKind::Slash)
    } else if c == ':' {
        Some(SymbolKind::Colon)
    } else if c == '<' {
        Some(SymbolKind::Less)
    } else if c == '=' {
        Some(SymbolKind::Equals)
    } else if c == '>' {
        Some(SymbolKind::Greater)
    } else if c == '?' {
        Some(SymbolKind::Question)
    } else if c == '@' {
        Some(SymbolKind::At)
    } else if c == '[' {
        Some(SymbolKind::LBracket)
    } else if c == ']' {
        Some(SymbolKind::RBracket)
    } else if c == '^' {
        Some(SymbolKind::Caret)
    } else if c == '_' {
        Some(SymbolKind::Underscore)
    } else if c == '`' {
        Some(SymbolKind::Backtick)
    } else if c == '|' {
        Some(SymbolKind::Pipe)
    } else if c == '~' {
        Some(SymbolKind::Tilde)
    } else {
        None
    }
}

/// Renders a symbol kind as its spelling: the exact inverse of recognition.
pub fn symbol_str(k: SymbolKind) -> (r: &'static str)
    ensures
        r@ == symbol_spelling(k),
{
    match k {
        SymbolKind::Bang => {
            let s = "!";
            proof {
                reveal_strlit("!");
                assert(s@ =~= symbol_spelling(k));
            }
            s
        },
        SymbolKind::Quote => {
            let s = "\"";
            proof {
                reveal_strlit("\"");
                assert(s@ =~= symbol_spelling(k));
            }
            s
        },
        SymbolKind::Hash => {
            let s = "#";
            proof {
                reveal_strlit("#");
                assert(s@ =~= symbol_spelling(k));
            }
            s
        },
        SymbolKind::Dollar => {
            let s = "$";
            proof {
                reveal_strlit("$");
                assert(s@ =~= symbol_spelling(k));
            }
            s
        },
        SymbolKind::Amp => {
            let s = "&";
            proof {
                reveal_strlit("&");
                assert(s@ =~= symbol_spelling(k));
            }
            s
        },
        SymbolKind::Prime => {
            let s = "'";
            proof {
                reveal_strlit("'");
                assert(s@ =~= symbol_spelling(k));
            }
            s
        },
        SymbolKind::LParen => {
            let s = "(";
            proof {
                reveal_strlit("(");
                assert(s@ =~= symbol_spelling(k));
            }
            s
        },
        SymbolKind::RParen => {
            let s = ")";
            proof {
                reveal_strlit(")");
                assert(s@ =~= symbol_spelling(k));
            }
            s
        },
        SymbolKind::Star => {
            let s = "*";
            proof {
                reveal_strlit("*");
                assert(s@ =~= symbol_spelling(k));
            }
            s
        },
        SymbolKind::Plus => {
            let s = "+";
            proof {
                reveal_strlit("+");
                assert(s@ =~= symbol_spelling(k));
            }
            s
        },
        SymbolKind::Comma => {
            let s = ",";
            proof {
                reveal_strlit(",");
                assert(s@ =~= symbol_spelling(k));
            }
            s
        },
        SymbolKind::Minus => {
            let s = "-";
            proof {
                reveal_strlit("-");
                assert(s@ =~= symbol_spelling(k));
            }
            s
        },
        SymbolKind::Dot => {
            let s = ".";
            proof {
                reveal_strlit(".");
                assert(s@ =~= symbol_spelling(k));
            }
            s
        },
        SymbolKind::Slash => {
            let s = "/";
            proof {
                reveal_strlit("/");
                assert(s@ =~= symbol_spelling(k));
            }
            s
        },
        SymbolKind::Colon => {
            let s = ":";
            proof {
                reveal_strlit(":");
                assert(s@ =~= symbol_spelling(k));
            }
            s
        },
        SymbolKind::Less => {
            let s = "<";
            proof {
                reveal_strlit("<");
                assert(s@ =~= symbol_spelling(k));
            }
            s
        },
        SymbolKind::Equals => {
            let s = "=";
            proof {
                reveal_strlit("=");
                assert(s@ =~= symbol_spelling(k));
            }
            s
        },
        SymbolKind::Greater => {
            let s = ">";
            proof {
                reveal_strlit(">");
                assert(s@ =~= symbol_spelling(k));
            }
            s
        },
        SymbolKind::Question => {
            let s = "?";
            proof {
                reveal_strlit("?");
                assert(s@ =~= symbol_spelling(k));
            }
            s
        },
        SymbolKind::At => {
            let s = "@";
            proof {
                reveal_strlit("@");
                assert(s@ =~= symbol_spelling(k));
            }
            s
        },
        SymbolKind::LBracket => {
            let s = "[";
            proof {
                reveal_strlit("[");
                assert(s@ =~= symbol_spelling(k));
            }
            s
        },
        SymbolKind::RBracket => {
            let s = "]";
            proof {
                reveal_strlit("]");
                assert(s@ =~= symbol_spelling(k));
            }
            s
        },
        SymbolKind::Caret => {
            let s = "^";
            proof {
                reveal_strlit("^");
                assert(s@ =~= symbol_spelling(k));
            }
            s
        },
        SymbolKind::Underscore => {
            let s = "_";
            proof {
                reveal_strlit("_");
                assert(s@ =~= symbol_spelling(k));
            }
            s
        },
        SymbolKind::Backtick => {
            let s = "`";
            proof {
                reveal_strlit("`");
                assert(s@ =~= symbol_spelling(k));
            }
            s
        },
        SymbolKind::Pipe => {
            let s = "|";
            proof {
                reveal_strlit("|");
                assert(s@ =~= symbol_spelling(k));
            }
            s
        },
        SymbolKind::Tilde => {
            let s = "~";
            proof {
                reveal_strlit("~");
                assert(s@ =~= symbol_spelling(k));
            }
            s
        },
        SymbolKind::EscLBrace => {
            let s = "\\{";
            proof {
                reveal_strlit("\\{");
                assert(s@ =~= symbol_spelling(k));
            }
            s
        },
        SymbolKind::EscRBrace => {
            let s = "\\}";
            proof {
                reveal_strlit("\\}");
                assert(s@ =~= symbol_spelling(k));
            }
            s
        },
    }
}

/// Renders a macro kind as its spelling, backslash included: the exact
/// inverse of recognition.
pub fn macro_str(m: Macro) -> (r: &'static str)
    ensures
        r@ == macro_spelling(m),
{
    match m {
        Macro::Comment => {
            let s = "\\comment";
            proof {
                reveal_strlit("\\comment");
                assert(s@ =~= macro_spelling(m));
            }
            s
        },
        Macro::Times => {
            let s = "\\times";
            proof {
                reveal_strlit("\\times");
                assert(s@ =~= macro_spelling(m));
            }
            s
        },
        Macro::Div => {
            let s = "\\div";
            proof {
                reveal_strlit("\\div");
                assert(s@ =~= macro_spelling(m));
            }
            s
        },
        Macro::Frac => {
            let s = "\\frac";
            proof {
                reveal_strlit("\\frac");
                assert(s@ =~= macro_spelling(m));
            }
            s
        },
        Macro::Display => {
            let s = "\\display";
            proof {
                reveal_strlit("\\display");
                assert(s@ =~= macro_spelling(m));
            }
            s
        },
        Macro::Prompt => {
            let s = "\\prompt";
            proof {
                reveal_strlit("\\prompt");
                assert(s@ =~= macro_spelling(m));
            }
            s
        },
        Macro::Limit => {
            let s = "\\lim";
            proof {
                reveal_strlit("\\lim");
                assert(s@ =~= macro_spelling(m));
            }
            s
        },
        Macro::LetVar => {
            let s = "\\letvar";
            proof {
                reveal_strlit("\\letvar");
                assert(s@ =~= macro_spelling(m));
            }
            s
        },
    }
}

/// Compares two character slices for equality of contents.
pub fn chars_eq(a: &[char], b: &[char]) -> (r: bool)
    ensures
        r == (a@ == b@),
{
    if a.len() != b.len() {
        proof {
            assert(a@.len() != b@.len());
        }
        return false;
    }
    let mut i: usize = 0;
    while i < a.len()
        invariant
            i <= a.len(),
            a.len() == b.len(),
            forall|j: int| 0 <= j < i ==> a@[j] == b@[j],
        decreases a.len() - i,
    {
        if a[i] != b[i] {
            return false;
        }
        i = i + 1;
    }
    proof {
        assert(a@ =~= b@);
    }
    true
}

/// Resolves a command name (the letters after the backslash) against the
/// macro vocabulary.
pub fn resolve_command(name: &[char]) -> (r: Option<Macro>)
    ensures
        r == macro_of_name(name@),
{
    let n_comment: Vec<char> = vec!['c', 'o', 'm', 'm', 'e', 'n', 't'];
    let n_times: Vec<char> = vec!['t', 'i', 'm', 'e', 's'];
    let n_div: Vec<char> = vec!['d', 'i', 'v'];
    let n_frac: Vec<char> = vec!['f', 'r', 'a', 'c'];
    let n_display: Vec<char> = vec!['d', 'i', 's', 'p', 'l', 'a', 'y'];
    let n_prompt: Vec<char> = vec!['p', 'r', 'o', 'm', 'p', 't'];
    let n_lim: Vec<char> = vec!['l', 'i', 'm'];
    let n_letvar: Vec<char> = vec!['l', 'e', 't', 'v', 'a', 'r'];
    proof {
        assert(n_comment@ =~= macro_name(Macro::Comment));
        assert(n_times@ =~= macro_name(Macro::Times));
        assert(n_div@ =~= macro_name(Macro::Div));
        assert(n_frac@ =~= macro_name(Macro::Frac));
        assert(n_display@ =~= macro_name(Macro::Display));
        assert(n_prompt@ =~= macro_name(Macro::Prompt));
        assert(n_lim@ =~= macro_name(Macro::Limit));
        assert(n_letvar@ =~= macro_name(Macro::LetVar));
    }
    if chars_eq(name, n_comment.as_slice()) {
        Some(Macro::Comment)
    } else if chars_eq(name, n_times.as_slice()) {
        Some(Macro::Times)
    } else if chars_eq(name, n_div.as_slice()) {
        Some(Macro::Div)
    } else if chars_eq(name, n_frac.as_slice()) {
        Some(Macro::Frac)
    } else if chars_eq(name, n_display.as_slice()) {
        Some(Macro::Display)
    } else if chars_eq(name, n_prompt.as_slice()) {
        Some(Macro::Prompt)
    } else if chars_eq(name, n_lim.as_slice()) {
        Some(Macro::Limit)
    } else if chars_eq(name, n_letvar.as_slice()) {
        Some(Macro::LetVar)
    } else {
        None
    }
}

} // verus!
