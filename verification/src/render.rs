//! The code generator: renders a compiled program back into target
//! notation, one aligned row per statement, bracketed by a fixed document
//! preamble and postamble. Rendering is total and purely structural
//! concatenation; symbols and macros render through the vocabulary's
//! inverse mapping, so rendering is the exact inverse of recognition.

use vstd::prelude::*;
use crate::program::{Expr, Instruction, InstructionView, Program, Statement};
use crate::vocab::{ScopeDir, macro_spelling, macro_str, symbol_spelling, symbol_str};

verus! {

/// Rendering into target notation, with the exact text stated in spec.
pub trait IntoTex {
    /// The exact text this value renders to.
    spec fn tex(&self) -> Seq<char>;

    /// Renders this value into target notation.
    fn into_tex(&self) -> (r: String)
        ensures
            r@ == self.tex(),
    ;
}

/// The decimal digit character for one digit value.
pub open spec fn dec_digit_char(d: nat) -> char {
    if d == 0 {
        '0'
    } else if d == 1 {
        '1'
    } else if d == 2 {
        '2'
    } else if d == 3 {
        '3'
    } else if d == 4 {
        '4'
    } else if d == 5 {
        '5'
    } else if d == 6 {
        '6'
    } else if d == 7 {
        '7'
    } else if d == 8 {
        '8'
    } else {
        '9'
    }
}

/// The decimal rendering of a number, most significant digit first, with
/// no leading zero except for zero itself.
pub open spec fn dec_text(n: nat) -> Seq<char>
    decreases n,
{
    if n < 10 {
        seq![dec_digit_char(n)]
    } else {
        dec_text(n / 10).push(dec_digit_char(n % 10))
    }
}

fn digit_str(d: u64) -> (s: &'static str)
    requires
        d < 10,
    ensures
        s@ == seq![dec_digit_char(d as nat)],
{
    if d == 0 {
        let s = "0";
        proof {
            reveal_strlit("0");
            assert(s@ =~= seq![dec_digit_char(d as nat)]);
        }
        s
    } else if d == 1 {
        let s = "1";
        proof {
            reveal_strlit("1");
            assert(s@ =~= seq![dec_digit_char(d as nat)]);
        }
        s
    } else if d == 2 {
        let s = "2";
        proof {
            reveal_strlit("2");
            assert(s@ =~= seq![dec_digit_char(d as nat)]);
        }
        s
    } else if d == 3 {
        let s = "3";
        proof {
            reveal_strlit("3");
            assert(s@ =~= seq![dec_digit_char(d as nat)]);
        }
        s
    } else if d == 4 {
        let s = "4";
        proof {
            reveal_strlit("4");
            assert(s@ =~= seq![dec_digit_char(d as nat)]);
        }
        s
    } else if d == 5 {
        let s = "5";
        proof {
            reveal_strlit("5");
            assert(s@ =~= seq![dec_digit_char(d as nat)]);
        }
        s
    } else if d == 6 {
        let s = "6";
        proof {
            reveal_strlit("6");
            assert(s@ =~= seq![dec_digit_char(d as nat)]);
        }
        s
    } else if d == 7 {
        let s = "7";
        proof {
            reveal_strlit("7");
            assert(s@ =~= seq![dec_digit_char(d as nat)]);
        }
        s
    } else if d == 8 {
        let s = "8";
        proof {
            reveal_strlit("8");
            assert(s@ =~= seq![dec_digit_char(d as nat)]);
        }
        s
    } else {
        let s = "9";
        proof {
            reveal_strlit("9");
            assert(s@ =~= seq![dec_digit_char(d as nat)]);
        }
        s
    }
}

/// Renders a number as its decimal digits.
pub fn num_to_string(n: u64) -> (r: String)
    ensures
        r@ == dec_text(n as nat),
    decreases n,
{
    if n < 10 {
        digit_str(n).to_owned()
    } else {
        let mut r = num_to_string(n / 10);
        r.append(digit_str(n % 10));
        proof {
            assert(r@ =~= dec_text((n / 10) as nat).push(dec_digit_char((n % 10) as nat)));
        }
        r
    }
}

/// The exact text one instruction renders to.
pub open spec fn instr_tex(i: InstructionView) -> Seq<char> {
    match i {
        InstructionView::Sym(k) => symbol_spelling(k),
        InstructionView::Cmd(m) => macro_spelling(m),
        InstructionView::Var(name) => name,
        InstructionView::Num(v) => dec_text(v as nat),
        InstructionView::Text(content) => seq!['\\', 't', 'e', 'x', 't', '{'] + content
            + seq!['}'],
        InstructionView::Scope(ScopeDir::Push) => seq!['{'],
        InstructionView::Scope(ScopeDir::Pop) => seq!['}'],
        InstructionView::Newline => seq!['\\', '\\'],
    }
}

/// The concatenation of the renderings of a run of instructions, in order.
pub open spec fn instrs_tex(s: Seq<InstructionView>) -> Seq<char>
    decreases s.len(),
{
    if s.len() == 0 {
        Seq::empty()
    } else {
        instrs_tex(s.drop_last()) + instr_tex(s.last())
    }
}

impl IntoTex for Instruction {
    open spec fn tex(&self) -> Seq<char> {
        instr_tex(self@)
    }

    fn into_tex(&self) -> (r: String) {
        match self {
            Instruction::Sym(k) => symbol_str(*k).to_owned(),
            Instruction::Cmd(m) => macro_str(*m).to_owned(),
            Instruction::Var(name) => name.clone(),
            Instruction::Num(v) => num_to_string(*v),
            Instruction::Text(content) => {
                let mut r = String::from_str("\\text{");
                r.append(content.as_str());
                r.append("}");
                proof {
                    reveal_strlit("\\text{");
                    reveal_strlit("}");
                    assert(r@ =~= instr_tex(self@));
                }
                r
            },
            Instruction::Scope(d) => {
                match d {
                    ScopeDir::Push => {
                        let s = "{";
                        proof {
                            reveal_strlit("{");
                            assert(s@ =~= instr_tex(self@));
                        }
                        s.to_owned()
                    },
                    ScopeDir::Pop => {
                        let s = "}";
                        proof {
                            reveal_strlit("}");
                            assert(s@ =~= instr_tex(self@));
                        }
                        s.to_owned()
                    },
                }
            },
            Instruction::Newline => {
                let s = "\\\\";
                proof {
                    reveal_strlit("\\\\");
                    assert(s@ =~= instr_tex(self@));
                }
                s.to_owned()
            },
        }
    }
}

impl IntoTex for Expr {
    open spec fn tex(&self) -> Seq<char> {
        instrs_tex(self@)
    }

    fn into_tex(&self) -> (r: String) {
        let mut r = String::new();
        let mut i: usize = 0;
        proof {
            assert(self@.take(0) =~= Seq::<InstructionView>::empty());
            assert(r@ =~= instrs_tex(self@.take(0)));
        }
        while i < self.instructions.len()
            invariant
                0 <= i <= self.instructions@.len(),
                r@ == instrs_tex(self@.take(i as int)),
            decreases self.instructions@.len() - i,
        {
            let piece = self.instructions[i].into_tex();
            r.append(piece.as_str());
            proof {
                assert(self@.take(i + 1 as int).drop_last() =~= self@.take(i as int));
                assert(self@.take(i + 1 as int).last() == self@[i as int]);
            }
            i = i + 1;
        }
        proof {
            assert(self@.take(self.instructions@.len() as int) =~= self@);
        }
        r
    }
}

impl IntoTex for Statement {
    open spec fn tex(&self) -> Seq<char> {
        instrs_tex(self@)
    }

    fn into_tex(&self) -> (r: String) {
        let mut r = String::new();
        let mut i: usize = 0;
        proof {
            assert(self@.take(0) =~= Seq::<InstructionView>::empty());
            assert(r@ =~= instrs_tex(self@.take(0)));
        }
        while i < self.instructions.len()
            invariant
                0 <= i <= self.instructions@.len(),
                r@ == instrs_tex(self@.take(i as int)),
            decreases self.instructions@.len() - i,
        {
            let piece = self.instructions[i].into_tex();
            r.append(piece.as_str());
            proof {
                assert(self@.take(i + 1 as int).drop_last() =~= self@.take(i as int));
                assert(self@.take(i + 1 as int).last() == self@[i as int]);
            }
            i = i + 1;
        }
        proof {
            assert(self@.take(self.instructions@.len() as int) =~= self@);
        }
        r
    }
}

/// The fixed document preamble: document class, packages, the notation
/// shorthands for the macros with no native equivalent, and the start of
/// the aligned environment.
pub open spec fn preamble() -> Seq<char> {
    "\\documentclass{article}\n\\usepackage[dvipsnames]{xcolor}\n\\usepackage{graphicx,amssymb,amsmath,amsthm,empheq,mdframed,color,bm}\n\\newcommand\\display[1]{\\text{display}(#1)}\n\\newcommand\\prompt[1]{\\text{prompt}(#1)}\n\\newcommand\\comment[1]{~{\\color{ForestGreen}\\text{#1}}~}\n\\newcommand\\letvar{\\text{Let }}\n\\newcommand\\where{\\text{if }}\n\\newcommand\\owise{\\text{otherwise}}\n\\begin{document}\n\\begin{align*}\n"@
}

/// The fixed document postamble: the end of the aligned environment and of
/// the document.
pub open spec fn postamble() -> Seq<char> {
    "\\end{align*}\n\\end{document}\n"@
}

/// The row terminator appended after each rendered statement.
pub open spec fn row_sep() -> Seq<char> {
    seq!['\\', '\\', '\n']
}

/// The concatenation of the rendered statements, each followed by the row
/// terminator of the aligned environment.
pub open spec fn rows_tex(p: Seq<Seq<InstructionView>>) -> Seq<char>
    decreases p.len(),
{
    if p.len() == 0 {
        Seq::empty()
    } else {
        rows_tex(p.drop_last()) + instrs_tex(p.last()) + row_sep()
    }
}

/// The exact text a program renders to.
pub open spec fn program_tex(p: Seq<Seq<InstructionView>>) -> Seq<char> {
    preamble() + rows_tex(p) + postamble()
}

impl IntoTex for Program {
    open spec fn tex(&self) -> Seq<char> {
        program_tex(self@)
    }

    fn into_tex(&self) -> (r: String) {
        let mut r = String::from_str(
            "\\documentclass{article}\n\\usepackage[dvipsnames]{xcolor}\n\\usepackage{graphicx,amssymb,amsmath,amsthm,empheq,mdframed,color,bm}\n\\newcommand\\display[1]{\\text{display}(#1)}\n\\newcommand\\prompt[1]{\\text{prompt}(#1)}\n\\newcommand\\comment[1]{~{\\color{ForestGreen}\\text{#1}}~}\n\\newcommand\\letvar{\\text{Let }}\n\\newcommand\\where{\\text{if }}\n\\newcommand\\owise{\\text{otherwise}}\n\\begin{document}\n\\begin{align*}\n",
        );
        let mut i: usize = 0;
        proof {
            assert(self@.take(0) =~= Seq::<Seq<InstructionView>>::empty());
            assert(r@ =~= preamble() + rows_tex(self@.take(0)));
        }
        while i < self.statements.len()
            invariant
                0 <= i <= self.statements@.len(),
                r@ == preamble() + rows_tex(self@.take(i as int)),
            decreases self.statements@.len() - i,
        {
            let row = self.statements[i].into_tex();
            r.append(row.as_str());
            let sep = "\\\\\n";
            proof {
                reveal_strlit("\\\\\n");
            }
            r.append(sep);
            proof {
                assert(self@.take(i + 1 as int).drop_last() =~= self@.take(i as int));
                assert(self@.take(i + 1 as int).last() == self@[i as int]);
                assert(sep@ =~= row_sep());
                assert(r@ =~= preamble() + rows_tex(self@.take(i + 1 as int)));
            }
            i = i + 1;
        }
        proof {
            assert(self@.take(self.statements@.len() as int) =~= self@);
        }
        r.append("\\end{align*}\n\\end{document}\n");
        r
    }
}

} // verus!
