use mathmark::compile;
use mathmark::program::{Expr, Instruction, Program, Statement};
use mathmark::relations::{Def, Req, ReqRel, ValRel};
use mathmark::render::IntoTex;
use mathmark::token::Category;
use mathmark::vocab::{Macro, ScopeDir, SymbolKind, macro_str, symbol_str};

fn all_symbol_kinds() -> Vec<SymbolKind> {
    vec![
        SymbolKind::Bang,
        SymbolKind::Quote,
        SymbolKind::Hash,
        SymbolKind::Dollar,
        SymbolKind::Amp,
        SymbolKind::Prime,
        SymbolKind::LParen,
        SymbolKind::RParen,
        SymbolKind::Star,
        SymbolKind::Plus,
        SymbolKind::Comma,
        SymbolKind::Minus,
        SymbolKind::Dot,
        SymbolKind::Slash,
        SymbolKind::Colon,
        SymbolKind::Less,
        SymbolKind::Equals,
        SymbolKind::Greater,
        SymbolKind::Question,
        SymbolKind::At,
        SymbolKind::LBracket,
        SymbolKind::RBracket,
        SymbolKind::Caret,
        SymbolKind::Underscore,
        SymbolKind::Backtick,
        SymbolKind::Pipe,
        SymbolKind::Tilde,
        SymbolKind::EscLBrace,
        SymbolKind::EscRBrace,
    ]
}

fn all_macros() -> Vec<Macro> {
    vec![
        Macro::Comment,
        Macro::Times,
        Macro::Div,
        Macro::Frac,
        Macro::Display,
        Macro::Prompt,
        Macro::Limit,
        Macro::LetVar,
    ]
}

#[test]
fn vocabulary_has_twenty_nine_symbols_and_eight_macros() {
    assert_eq!(all_symbol_kinds().len(), 29);
    assert_eq!(all_macros().len(), 8);
}

#[test]
fn symbol_round_trip() {
    // Lexing the rendered spelling of every symbol kind gives back exactly
    // that kind.
    for kind in all_symbol_kinds() {
        let spelling = symbol_str(kind);
        let tokens = mathmark::lexer::tokenize(spelling)
            .unwrap_or_else(|_| panic!("symbol spelling failed to lex: {spelling}"));
        assert_eq!(tokens.len(), 1);
        match tokens[0].category {
            Category::Symbol(back) => assert_eq!(back, kind),
            Category::EscapedBrace(back) => assert_eq!(back, kind),
            _ => panic!("symbol spelling lexed to another category: {spelling}"),
        }
        assert_eq!(tokens[0].lexeme, spelling);
    }
}

#[test]
fn macro_round_trip() {
    // Lexing the rendered spelling of every macro kind gives back exactly
    // that kind.
    for kind in all_macros() {
        let spelling = macro_str(kind);
        let tokens = mathmark::lexer::tokenize(spelling)
            .unwrap_or_else(|_| panic!("macro spelling failed to lex: {spelling}"));
        assert_eq!(tokens.len(), 1);
        match tokens[0].category {
            Category::Command(back) => assert_eq!(back, kind),
            _ => panic!("macro spelling lexed to another category: {spelling}"),
        }
        assert_eq!(tokens[0].lexeme, spelling);
    }
}

#[test]
fn symbol_spellings_are_distinct() {
    let kinds = all_symbol_kinds();
    for a in &kinds {
        for b in &kinds {
            if a != b {
                assert_ne!(symbol_str(*a), symbol_str(*b));
            }
        }
    }
}

#[test]
fn instruction_rendering() {
    assert_eq!(Instruction::Sym(SymbolKind::Equals).into_tex(), "=");
    assert_eq!(Instruction::Cmd(Macro::Frac).into_tex(), "\\frac");
    assert_eq!(Instruction::Cmd(Macro::Limit).into_tex(), "\\lim");
    assert_eq!(Instruction::Var("x''".to_string()).into_tex(), "x''");
    assert_eq!(Instruction::Num(0).into_tex(), "0");
    assert_eq!(Instruction::Num(42).into_tex(), "42");
    assert_eq!(Instruction::Num(1234567890).into_tex(), "1234567890");
    assert_eq!(
        Instruction::Num(u64::MAX).into_tex(),
        "18446744073709551615"
    );
    assert_eq!(
        Instruction::Text("hi there".to_string()).into_tex(),
        "\\text{hi there}"
    );
    assert_eq!(Instruction::Scope(ScopeDir::Push).into_tex(), "{");
    assert_eq!(Instruction::Scope(ScopeDir::Pop).into_tex(), "}");
    assert_eq!(Instruction::Newline.into_tex(), "\\\\");
}

#[test]
fn statement_rendering_concatenates_in_order() {
    let statement = Statement {
        instructions: vec![
            Instruction::Var("x".to_string()),
            Instruction::Sym(SymbolKind::Equals),
            Instruction::Num(2),
        ],
    };
    assert_eq!(statement.into_tex(), "x=2");
}

#[test]
fn expr_rendering_concatenates_in_order() {
    let expr = Expr {
        instructions: vec![
            Instruction::Num(1),
            Instruction::Sym(SymbolKind::Plus),
            Instruction::Num(2),
        ],
    };
    assert_eq!(expr.into_tex(), "1+2");
}

#[test]
fn empty_program_renders_preamble_and_postamble_only() {
    let program = Program { statements: vec![] };
    let out = program.into_tex();
    let expected = "\\documentclass{article}\n\\usepackage[dvipsnames]{xcolor}\n\\usepackage{graphicx,amssymb,amsmath,amsthm,empheq,mdframed,color,bm}\n\\newcommand\\display[1]{\\text{display}(#1)}\n\\newcommand\\prompt[1]{\\text{prompt}(#1)}\n\\newcommand\\comment[1]{~{\\color{ForestGreen}\\text{#1}}~}\n\\newcommand\\letvar{\\text{Let }}\n\\newcommand\\where{\\text{if }}\n\\newcommand\\owise{\\text{otherwise}}\n\\begin{document}\n\\begin{align*}\n\\end{align*}\n\\end{document}\n";
    assert_eq!(out, expected);
}

#[test]
fn rendered_rows_match_statements_one_to_one() {
    let program = compile("1+2;\\lim x;".to_string()).expect("expected the source to compile");
    let out = program.into_tex();
    // Rendering is pure structural concatenation: no spacing is inserted
    // between adjacent instruction renderings.
    assert!(out.contains("\\begin{align*}\n1+2\\\\\n\\limx\\\\\n\\end{align*}\n"));
}

#[test]
fn rendering_inverts_recognition_for_a_whole_statement() {
    // Compile a statement made of vocabulary spellings and check the
    // rendered row is exactly the source with whitespace dropped.
    let program = compile("a \\times b = \\frac{1}{2};".to_string())
        .expect("expected the source to compile");
    let row = program.statements[0].instructions.iter().fold(
        String::new(),
        |mut acc, instruction| {
            acc.push_str(&instruction.into_tex());
            acc
        },
    );
    assert_eq!(row, "a\\times b=\\frac{1}{2}".replace(' ', ""));
}

#[test]
fn req_rel_rendering() {
    assert_eq!(ReqRel::In.into_tex(), "\\in");
    assert_eq!(ReqRel::NotIn.into_tex(), "\\notin");
}

#[test]
fn val_rel_rendering() {
    assert_eq!(ValRel::EQ.into_tex(), "=");
    assert_eq!(ValRel::NE.into_tex(), "\\ne");
    assert_eq!(ValRel::LT.into_tex(), "<");
    assert_eq!(ValRel::LE.into_tex(), "\\le");
    assert_eq!(ValRel::GT.into_tex(), ">");
    assert_eq!(ValRel::GE.into_tex(), "\\ge");
}

#[test]
fn req_and_def_render_relation_then_value() {
    let req = Req {
        rel: ReqRel::In,
        val: Expr { instructions: vec![Instruction::Var("S".to_string())] },
    };
    assert_eq!(req.into_tex(), "\\in S");
    let def = Def {
        rel: ValRel::GE,
        val: Expr { instructions: vec![Instruction::Num(0)] },
    };
    assert_eq!(def.into_tex(), "\\ge 0");
}

#[test]
fn program_construction_by_hand_matches_builder() {
    let mut by_hand = Program::new();
    by_hand.add_instruction(Instruction::Var("a".to_string()));
    by_hand.end_statement();
    by_hand.end_statement();
    by_hand.add_instruction(Instruction::Var("b".to_string()));
    let built = compile("a;;b".to_string()).expect("expected the source to compile");
    let by_hand_rows: Vec<Vec<Instruction>> =
        by_hand.statements.into_iter().map(|s| s.instructions).collect();
    let built_rows: Vec<Vec<Instruction>> =
        built.statements.into_iter().map(|s| s.instructions).collect();
    assert_eq!(by_hand_rows, built_rows);
}
