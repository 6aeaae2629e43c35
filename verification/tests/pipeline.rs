use mathmark::compile;
use mathmark::compile_expr;
use mathmark::program::Instruction;
use mathmark::render::IntoTex;
use mathmark::vocab::{Macro, ScopeDir, SymbolKind};

fn statements_of(src: &str) -> Vec<Vec<Instruction>> {
    let program = compile(src.to_string()).expect("expected the source to compile");
    program
        .statements
        .into_iter()
        .map(|s| s.instructions)
        .collect()
}

#[test]
fn empty_statement_collapse() {
    // Three consecutive terminators with nothing else yield no statements.
    let statements = statements_of(";;;");
    assert_eq!(statements.len(), 0);
}

#[test]
fn empty_input_yields_empty_program() {
    let statements = statements_of("");
    assert_eq!(statements.len(), 0);
}

#[test]
fn statement_splitting() {
    // "a;b;" yields exactly two statements, each holding one variable.
    let statements = statements_of("a;b;");
    assert_eq!(statements.len(), 2);
    assert_eq!(statements[0], vec![Instruction::Var("a".to_string())]);
    assert_eq!(statements[1], vec![Instruction::Var("b".to_string())]);
}

#[test]
fn trailing_statement_without_terminator_is_kept() {
    let statements = statements_of("a;b");
    assert_eq!(statements.len(), 2);
    assert_eq!(statements[1], vec![Instruction::Var("b".to_string())]);
}

#[test]
fn repeated_terminators_between_statements_collapse() {
    let statements = statements_of("a;;;b;");
    assert_eq!(statements.len(), 2);
}

#[test]
fn comment_stripping() {
    // A comment span produces zero instructions regardless of surroundings.
    let with_comment = statements_of("a% nothing to see\nb;");
    let without_comment = statements_of("ab;");
    assert_eq!(with_comment, without_comment);
    assert_eq!(
        with_comment[0],
        vec![
            Instruction::Var("a".to_string()),
            Instruction::Var("b".to_string()),
        ]
    );
}

#[test]
fn comment_alone_yields_no_statements() {
    let statements = statements_of("% only a comment\n");
    assert_eq!(statements.len(), 0);
}

#[test]
fn comment_on_last_line_without_newline() {
    let statements = statements_of("a;% trailing words");
    assert_eq!(statements.len(), 1);
    assert_eq!(statements[0], vec![Instruction::Var("a".to_string())]);
}

#[test]
fn unknown_command_failure() {
    // "\foo" is reported as the unrecognized spelling; no program comes out.
    let err = compile("\\foo".to_string()).expect_err("expected a lexing failure");
    assert_eq!(err.text, "\\foo");
    assert_eq!(err.pos, 0);
}

#[test]
fn unknown_command_failure_position() {
    let err = compile("a = \\nope;".to_string()).expect_err("expected a lexing failure");
    assert_eq!(err.text, "\\nope");
    assert_eq!(err.pos, 4);
}

#[test]
fn lone_backslash_fails() {
    let err = compile("\\".to_string()).expect_err("expected a lexing failure");
    assert_eq!(err.text, "\\");
    assert_eq!(err.pos, 0);
}

#[test]
fn unrecognized_character_fails() {
    let err = compile("a\u{00e9}".to_string()).expect_err("expected a lexing failure");
    assert_eq!(err.text, "\u{00e9}");
    assert_eq!(err.pos, 1);
}

#[test]
fn numeric_literal() {
    let statements = statements_of("42");
    assert_eq!(statements.len(), 1);
    assert_eq!(statements[0], vec![Instruction::Num(42)]);
}

#[test]
fn numeric_literal_decimal_truncates() {
    // Decimal syntax is accepted lexically; the stored value is the
    // integer part.
    let statements = statements_of("3.14");
    assert_eq!(statements.len(), 1);
    assert_eq!(statements[0], vec![Instruction::Num(3)]);
}

#[test]
fn numeric_literal_leading_dot() {
    let statements = statements_of(".5");
    assert_eq!(statements[0], vec![Instruction::Num(0)]);
}

#[test]
fn numeric_literal_leading_zeros() {
    let statements = statements_of("007");
    assert_eq!(statements[0], vec![Instruction::Num(7)]);
}

#[test]
fn numeric_literal_wraps_modulo_two_to_the_sixty_four() {
    let statements = statements_of("18446744073709551616");
    assert_eq!(statements[0], vec![Instruction::Num(0)]);
}

#[test]
fn dot_alone_is_a_symbol() {
    let statements = statements_of(".");
    assert_eq!(statements[0], vec![Instruction::Sym(SymbolKind::Dot)]);
}

#[test]
fn integer_then_dot_without_digits() {
    let statements = statements_of("3.");
    assert_eq!(
        statements[0],
        vec![Instruction::Num(3), Instruction::Sym(SymbolKind::Dot)]
    );
}

#[test]
fn full_pipeline() {
    // "x = 2;" compiles to one statement [Variable, Equals, Number] and
    // renders as x=2 followed by a row terminator inside the fixed
    // preamble and postamble.
    let program = compile("x = 2;".to_string()).expect("expected the source to compile");
    assert_eq!(program.statements.len(), 1);
    assert_eq!(
        program.statements[0].instructions,
        vec![
            Instruction::Var("x".to_string()),
            Instruction::Sym(SymbolKind::Equals),
            Instruction::Num(2),
        ]
    );
    let out = program.into_tex();
    assert!(out.contains("x=2\\\\\n"));
    assert!(out.starts_with("\\documentclass{article}\n"));
    assert!(out.contains("\\begin{align*}\nx=2\\\\\n\\end{align*}\n"));
    assert!(out.ends_with("\\end{align*}\n\\end{document}\n"));
}

#[test]
fn variable_with_primes() {
    let statements = statements_of("x''");
    assert_eq!(statements[0], vec![Instruction::Var("x''".to_string())]);
}

#[test]
fn adjacent_letters_are_separate_variables() {
    let statements = statements_of("xy");
    assert_eq!(
        statements[0],
        vec![
            Instruction::Var("x".to_string()),
            Instruction::Var("y".to_string()),
        ]
    );
}

#[test]
fn text_literal_content() {
    let statements = statements_of("\\text{hello world};");
    assert_eq!(
        statements[0],
        vec![Instruction::Text("hello world".to_string())]
    );
}

#[test]
fn text_literal_is_non_greedy() {
    let statements = statements_of("\\text{a}b}");
    assert_eq!(
        statements[0],
        vec![
            Instruction::Text("a".to_string()),
            Instruction::Var("b".to_string()),
            Instruction::Scope(ScopeDir::Pop),
        ]
    );
}

#[test]
fn unterminated_text_literal_fails() {
    let err = compile("\\text{abc".to_string()).expect_err("expected a lexing failure");
    assert_eq!(err.text, "\\text");
    assert_eq!(err.pos, 0);
}

#[test]
fn scope_delimiters_and_escaped_braces_are_distinct() {
    let statements = statements_of("{\\{\\}}");
    assert_eq!(
        statements[0],
        vec![
            Instruction::Scope(ScopeDir::Push),
            Instruction::Sym(SymbolKind::EscLBrace),
            Instruction::Sym(SymbolKind::EscRBrace),
            Instruction::Scope(ScopeDir::Pop),
        ]
    );
}

#[test]
fn newline_marker() {
    let statements = statements_of("a\\\\b;");
    assert_eq!(
        statements[0],
        vec![
            Instruction::Var("a".to_string()),
            Instruction::Newline,
            Instruction::Var("b".to_string()),
        ]
    );
}

#[test]
fn commands_resolve_in_statements() {
    let statements = statements_of("\\frac{1}{2};");
    assert_eq!(
        statements[0],
        vec![
            Instruction::Cmd(Macro::Frac),
            Instruction::Scope(ScopeDir::Push),
            Instruction::Num(1),
            Instruction::Scope(ScopeDir::Pop),
            Instruction::Scope(ScopeDir::Push),
            Instruction::Num(2),
            Instruction::Scope(ScopeDir::Pop),
        ]
    );
}

#[test]
fn compile_expr_flattens_statements() {
    let expr = compile_expr("a;b;".to_string()).expect("expected the fragment to compile");
    assert_eq!(
        expr.instructions,
        vec![
            Instruction::Var("a".to_string()),
            Instruction::Var("b".to_string()),
        ]
    );
}

#[test]
fn compile_expr_drops_comments() {
    let expr = compile_expr("1 % two\n+ 3".to_string()).expect("expected the fragment to compile");
    assert_eq!(
        expr.instructions,
        vec![
            Instruction::Num(1),
            Instruction::Sym(SymbolKind::Plus),
            Instruction::Num(3),
        ]
    );
}

#[test]
fn compile_expr_fails_like_compile() {
    let err = compile_expr("\\foo".to_string()).expect_err("expected a lexing failure");
    assert_eq!(err.text, "\\foo");
    assert_eq!(err.pos, 0);
}
