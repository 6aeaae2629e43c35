//! The compiled representation: instructions grouped into statements, and
//! statements into a program, plus the builder pass that assembles a program
//! from a token sequence.
//!
//! The builder threads an explicit accumulator through a single forward
//! pass: the statements completed so far and the statement currently being
//! filled. A terminator closes the current statement unless it is empty, so
//! repeated terminators collapse; a trailing empty statement is never kept.

use vstd::prelude::*;
use crate::token::{
    Category, Token, TokenView, dec_val_wrap, digits_prefix_len, is_digit, number_lexeme_wf,
    number_value, text_content, token_views, token_wf,
};
use crate::vocab::{Macro, ScopeDir, SymbolKind};

verus! {

/// The atomic semantic unit stored in a statement.
#[derive(Clone, Debug, PartialEq, Eq)]
pub enum Instruction {
    /// A single recognized operator or punctuation character.
    Sym(SymbolKind),
    /// A recognized named command.
    Cmd(Macro),
    /// A variable: one letter optionally followed by prime marks.
    Var(String),
    /// An integer literal. Decimal source literals are truncated to their
    /// integer part; digit strings beyond 64 bits wrap modulo 2^64.
    Num(u64),
    /// Literal free text, rendered in text mode.
    Text(String),
    /// An opening or closing grouping delimiter.
    Scope(ScopeDir),
    /// An explicit line break, distinct from statement termination.
    Newline,
}

/// The mathematical value of an instruction: string payloads become
/// character sequences.
pub enum InstructionView {
    Sym(SymbolKind),
    Cmd(Macro),
    Var(Seq<char>),
    Num(u64),
    Text(Seq<char>),
    Scope(ScopeDir),
    Newline,
}

impl View for Instruction {
    type V = InstructionView;

    open spec fn view(&self) -> InstructionView {
        match self {
            Instruction::Sym(k) => InstructionView::Sym(*k),
            Instruction::Cmd(m) => InstructionView::Cmd(*m),
            Instruction::Var(s) => InstructionView::Var(s@),
            Instruction::Num(v) => InstructionView::Num(*v),
            Instruction::Text(s) => InstructionView::Text(s@),
            Instruction::Scope(d) => InstructionView::Scope(*d),
            Instruction::Newline => InstructionView::Newline,
        }
    }
}

/// A flat run of instructions, as contained within commands.
#[derive(Debug)]
pub struct Expr {
    pub instructions: Vec<Instruction>,
}

impl View for Expr {
    type V = Seq<InstructionView>;

    open spec fn view(&self) -> Seq<InstructionView> {
        self.instructions@.map_values(|i: Instruction| i@)
    }
}

impl Expr {
    /// An empty expression.
    pub fn new() -> (e: Expr)
        ensures
            e@ == Seq::<InstructionView>::empty(),
    {
        let e = Expr { instructions: Vec::new() };
        proof {
            assert(e@ =~= Seq::<InstructionView>::empty());
        }
        e
    }
}

/// An ordered group of instructions; one row of the rendered output.
#[derive(Debug)]
pub struct Statement {
    pub instructions: Vec<Instruction>,
}

impl View for Statement {
    type V = Seq<InstructionView>;

    open spec fn view(&self) -> Seq<InstructionView> {
        self.instructions@.map_values(|i: Instruction| i@)
    }
}

impl Statement {
    /// An empty statement.
    pub fn new() -> (s: Statement)
        ensures
            s@ == Seq::<InstructionView>::empty(),
    {
        let s = Statement { instructions: Vec::new() };
        proof {
            assert(s@ =~= Seq::<InstructionView>::empty());
        }
        s
    }
}

/// The full compiled representation: an ordered sequence of statements.
#[derive(Debug)]
pub struct Program {
    pub statements: Vec<Statement>,
}

impl View for Program {
    type V = Seq<Seq<InstructionView>>;

    open spec fn view(&self) -> Seq<Seq<InstructionView>> {
        self.statements@.map_values(|s: Statement| s@)
    }
}

impl Program {
    /// An empty program.
    pub fn new() -> (p: Program)
        ensures
            p@ == Seq::<Seq<InstructionView>>::empty(),
    {
        let p = Program { statements: Vec::new() };
        proof {
            assert(p@ =~= Seq::<Seq<InstructionView>>::empty());
        }
        p
    }

    /// Closes the current statement by opening a fresh one, unless the
    /// current statement is empty: repeated terminators collapse.
    pub fn end_statement(&mut self)
        ensures
            old(self)@.len() > 0 && old(self)@.last().len() > 0 ==> final(self)@ == old(
                self,
            )@.push(Seq::<InstructionView>::empty()),
            !(old(self)@.len() > 0 && old(self)@.last().len() > 0) ==> final(self)@ == old(
                self,
            )@,
    {
        let n = self.statements.len();
        if n > 0 && self.statements[n - 1].instructions.len() > 0 {
            self.statements.push(Statement::new());
            proof {
                assert(self@ =~= old(self)@.push(Seq::<InstructionView>::empty()));
            }
        } else {
            proof {
                assert(self@ =~= old(self)@);
            }
        }
    }

    /// Appends an instruction to the statement currently being filled,
    /// opening the first statement if none is open yet.
    pub fn add_instruction(&mut self, instruction: Instruction)
        ensures
            old(self)@.len() == 0 ==> final(self)@ == seq![seq![instruction@]],
            old(self)@.len() > 0 ==> final(self)@ == old(self)@.update(
                old(self)@.len() - 1,
                old(self)@.last().push(instruction@),
            ),
    {
        if self.statements.len() == 0 {
            self.statements.push(Statement::new());
        }
        let mut st = self.statements.pop().unwrap();
        let ghost st0 = st@;
        st.instructions.push(instruction);
        proof {
            assert(st@ =~= st0.push(instruction@));
        }
        self.statements.push(st);
        proof {
            if old(self)@.len() == 0 {
                assert(st0 =~= Seq::<InstructionView>::empty());
                assert(self@ =~~= seq![seq![instruction@]]);
            } else {
                assert(st0 == old(self)@.last());
                assert(self@ =~~= old(self)@.update(
                    old(self)@.len() - 1,
                    old(self)@.last().push(instruction@),
                ));
            }
        }
    }
}

/// Whether a token of this category maps to an instruction. Comments and
/// statement terminators never do.
pub open spec fn category_is_instr(c: Category) -> bool {
    !(c is Comment) && !(c is Terminator)
}

/// The instruction denoted by one instruction-bearing token, with its
/// payload extracted from the lexeme.
pub open spec fn token_instr(t: TokenView) -> InstructionView
    recommends
        category_is_instr(t.category),
{
    match t.category {
        Category::NewlineMark => InstructionView::Newline,
        Category::NumberLit => InstructionView::Num(number_value(t.lexeme) as u64),
        Category::TextLit => InstructionView::Text(text_content(t.lexeme)),
        Category::EscapedBrace(k) => InstructionView::Sym(k),
        Category::ScopeDelim(d) => InstructionView::Scope(d),
        Category::Variable => InstructionView::Var(t.lexeme),
        Category::Command(m) => InstructionView::Cmd(m),
        Category::Symbol(k) => InstructionView::Sym(k),
        Category::Comment => arbitrary(),
        Category::Terminator => arbitrary(),
    }
}

/// The flat instruction stream of a token sequence: every comment and
/// terminator dropped, every other token mapped to its instruction, in
/// source order.
pub open spec fn instr_stream(toks: Seq<TokenView>) -> Seq<InstructionView>
    decreases toks.len(),
{
    if toks.len() == 0 {
        Seq::empty()
    } else if category_is_instr(toks.last().category) {
        instr_stream(toks.drop_last()).push(token_instr(toks.last()))
    } else {
        instr_stream(toks.drop_last())
    }
}

/// The builder accumulator after consuming a token sequence: the completed
/// statements and the statement currently being filled.
pub open spec fn build_state(toks: Seq<TokenView>) -> (Seq<Seq<InstructionView>>, Seq<
    InstructionView,
>)
    decreases toks.len(),
{
    if toks.len() == 0 {
        (Seq::empty(), Seq::empty())
    } else {
        let prev = build_state(toks.drop_last());
        let t = toks.last();
        match t.category {
            Category::Comment => prev,
            Category::Terminator => if prev.1.len() == 0 {
                prev
            } else {
                (prev.0.push(prev.1), Seq::empty())
            },
            _ => (prev.0, prev.1.push(token_instr(t))),
        }
    }
}

/// The program assembled from a token sequence: the completed statements,
/// with a non-empty trailing statement closed and an empty one discarded.
pub open spec fn spec_build(toks: Seq<TokenView>) -> Seq<Seq<InstructionView>> {
    let st = build_state(toks);
    if st.1.len() == 0 {
        st.0
    } else {
        st.0.push(st.1)
    }
}

/// Parses the leading digit run of a numeric lexeme into a 64-bit value,
/// reducing modulo 2^64 after every digit; any fractional part after the
/// decimal point is truncated away.
pub fn parse_number(lexeme: &str) -> (v: u64)
    requires
        number_lexeme_wf(lexeme@),
    ensures
        v as nat == number_value(lexeme@),
{
    let n = lexeme.unicode_len();
    let mut i: usize = 0;
    let mut acc: u64 = 0;
    loop
        invariant
            0 <= i <= n,
            n == lexeme@.len(),
            forall|j: int| 0 <= j < i ==> is_digit(#[trigger] lexeme@[j]),
            acc as nat == dec_val_wrap(lexeme@.take(i as int)),
        ensures
            acc as nat == dec_val_wrap(lexeme@.take(digits_prefix_len(lexeme@) as int)),
        decreases n - i,
    {
        if i >= n {
            proof {
                crate::token::lemma_digits_prefix_len_is(lexeme@, i as int);
            }
            break;
        }
        let c = lexeme.get_char(i);
        if c < '0' || c > '9' {
            proof {
                crate::token::lemma_digits_prefix_len_is(lexeme@, i as int);
            }
            break;
        }
        let d: u64 = (c as u32 - '0' as u32) as u64;
        let wide: u128 = acc as u128 * 10 + d as u128;
        let next: u64 = (wide % 0x1_0000_0000_0000_0000u128) as u64;
        proof {
            assert(lexeme@.take(i + 1 as int).drop_last() =~= lexeme@.take(i as int));
            assert(lexeme@.take(i + 1 as int).last() == lexeme@[i as int]);
        }
        acc = next;
        i = i + 1;
    }
    acc
}

/// Maps one instruction-bearing token to its instruction, extracting the
/// payload from the lexeme.
pub fn instr_of_token(t: &Token) -> (ins: Instruction)
    requires
        token_wf(t@),
        category_is_instr(t@.category),
    ensures
        ins@ == token_instr(t@),
{
    match t.category {
        Category::NewlineMark => Instruction::Newline,
        Category::NumberLit => Instruction::Num(parse_number(t.lexeme.as_str())),
        Category::TextLit => {
            let n = t.lexeme.as_str().unicode_len();
            let content = t.lexeme.as_str().substring_char(6, n - 1).to_owned();
            Instruction::Text(content)
        },
        Category::EscapedBrace(k) => Instruction::Sym(k),
        Category::ScopeDelim(d) => Instruction::Scope(d),
        Category::Variable => Instruction::Var(t.lexeme.clone()),
        Category::Command(m) => Instruction::Cmd(m),
        Category::Symbol(k) => Instruction::Sym(k),
        Category::Comment => vstd::pervasive::unreached(),
        Category::Terminator => vstd::pervasive::unreached(),
    }
}

/// Assembles a program from a token sequence in one forward pass: comments
/// are dropped, terminators close the current statement unless it is empty,
/// and every other token appends its instruction to the current statement.
/// The trailing statement is kept only if it is non-empty.
pub fn build(tokens: &Vec<Token>) -> (p: Program)
    requires
        forall|i: int| 0 <= i < tokens@.len() ==> token_wf(#[trigger] tokens@[i]@),
    ensures
        p@ == spec_build(token_views(tokens@)),
{
    let ghost views = token_views(tokens@);
    let mut done: Vec<Statement> = Vec::new();
    let mut cur: Statement = Statement::new();
    let mut i: usize = 0;
    proof {
        assert(views.take(0) =~= Seq::<TokenView>::empty());
        assert(done@.map_values(|s: Statement| s@) =~= Seq::<Seq<InstructionView>>::empty());
    }
    while i < tokens.len()
        invariant
            0 <= i <= tokens@.len(),
            views == token_views(tokens@),
            forall|j: int| 0 <= j < tokens@.len() ==> token_wf(#[trigger] tokens@[j]@),
            (done@.map_values(|s: Statement| s@), cur@) == build_state(views.take(i as int)),
        decreases tokens@.len() - i,
    {
        let t = &tokens[i];
        proof {
            assert(views.take(i + 1 as int).drop_last() =~= views.take(i as int));
            assert(views.take(i + 1 as int).last() == tokens@[i as int]@);
        }
        match t.category {
            Category::Comment => {},
            Category::Terminator => {
                if cur.instructions.len() > 0 {
                    done.push(cur);
                    cur = Statement::new();
                    proof {
                        assert(done@.map_values(|s: Statement| s@) =~= build_state(
                            views.take(i + 1 as int),
                        ).0);
                    }
                }
            },
            _ => {
                let ins = instr_of_token(t);
                cur.instructions.push(ins);
                proof {
                    assert(cur@ =~= build_state(views.take(i + 1 as int)).1);
                }
            },
        }
        i = i + 1;
    }
    proof {
        assert(views.take(tokens@.len() as int) =~= views);
    }
    if cur.instructions.len() > 0 {
        done.push(cur);
        proof {
            assert(done@.map_values(|s: Statement| s@) =~= spec_build(views));
        }
    }
    let p = Program { statements: done };
    p
}

/// Law: a built program never contains an empty statement. Consecutive
/// terminators collapse and a trailing empty statement is discarded.
pub proof fn lemma_build_no_empty_statement(toks: Seq<TokenView>)
    ensures
        forall|j: int| 0 <= j < spec_build(toks).len() ==> #[trigger] spec_build(
            toks,
        )[j].len() > 0,
{
    lemma_build_state_nonempty(toks);
}

proof fn lemma_build_state_nonempty(toks: Seq<TokenView>)
    ensures
        forall|j: int| 0 <= j < build_state(toks).0.len() ==> #[trigger] build_state(
            toks,
        ).0[j].len() > 0,
    decreases toks.len(),
{
    if toks.len() > 0 {
        let prev = build_state(toks.drop_last());
        lemma_build_state_nonempty(toks.drop_last());
        let st = build_state(toks);
        assert forall|j: int| 0 <= j < st.0.len() implies #[trigger] st.0[j].len() > 0 by {
            if j < prev.0.len() {
                assert(prev.0[j].len() > 0);
            } else {
                assert(st.0[j] == prev.1);
            }
        }
    }
}

/// Law: a comment token contributes nothing to the built program, wherever
/// it stands. Removing it leaves the program unchanged.
pub proof fn lemma_build_drops_comment(toks: Seq<TokenView>, i: int)
    requires
        0 <= i < toks.len(),
        toks[i].category is Comment,
    ensures
        spec_build(toks.remove(i)) == spec_build(toks),
{
    lemma_build_state_drop_comment(toks, i);
}

proof fn lemma_build_state_drop_comment(toks: Seq<TokenView>, i: int)
    requires
        0 <= i < toks.len(),
        toks[i].category is Comment,
    ensures
        build_state(toks.remove(i)) == build_state(toks),
    decreases toks.len(),
{
    if i == toks.len() - 1 {
        assert(toks.remove(i) =~= toks.drop_last());
    } else {
        let shorter = toks.drop_last();
        assert(toks.remove(i).drop_last() =~= shorter.remove(i));
        assert(toks.remove(i).last() == toks.last());
        lemma_build_state_drop_comment(shorter, i);
    }
}

/// Law: the statements of a built program, concatenated in order, are
/// exactly the instruction stream of the token sequence: instruction order
/// is source order, and only statement boundaries are added or removed.
pub proof fn lemma_build_flatten(toks: Seq<TokenView>)
    ensures
        spec_build(toks).flatten() == instr_stream(toks),
{
    lemma_build_state_flatten(toks);
    let st = build_state(toks);
    if st.1.len() == 0 {
        assert(st.0.flatten() + st.1 =~= st.0.flatten());
    } else {
        st.0.lemma_flatten_push(st.1);
    }
}

proof fn lemma_build_state_flatten(toks: Seq<TokenView>)
    ensures
        build_state(toks).0.flatten() + build_state(toks).1 == instr_stream(toks),
    decreases toks.len(),
{
    if toks.len() == 0 {
        assert(build_state(toks).0.flatten() + build_state(toks).1 =~= instr_stream(toks));
    } else {
        let prev = build_state(toks.drop_last());
        lemma_build_state_flatten(toks.drop_last());
        let t = toks.last();
        match t.category {
            Category::Comment => {},
            Category::Terminator => {
                if prev.1.len() > 0 {
                    prev.0.lemma_flatten_push(prev.1);
                    assert(prev.0.push(prev.1).flatten() + Seq::<InstructionView>::empty() =~= (
                    prev.0.flatten() + prev.1));
                }
            },
            _ => {
                assert(prev.0.flatten() + prev.1.push(token_instr(t)) =~= (prev.0.flatten()
                    + prev.1).push(token_instr(t)));
            },
        }
    }
}

} // verus!
