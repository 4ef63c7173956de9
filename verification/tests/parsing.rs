//! Parser behavior: precedence, unary disambiguation, desugaring, errors.

use smallc::lex::{Lexer, Token, TokenKind};
use smallc::parse::{Parser, AST, NodeStmt, NodeExpr, NodeTerm};
use smallc::errors::SyntaxError;

fn parse(src: &str) -> AST {
    let mut lexer = Lexer::new(vec![src.to_string()]);
    let toks = lexer.tokenize().expect("lexing failed");
    let mut parser = Parser::new(toks);
    parser.parse_ast().expect("parsing failed")
}

fn parse_err(src: &str) -> SyntaxError {
    let mut lexer = Lexer::new(vec![src.to_string()]);
    let toks = lexer.tokenize().expect("lexing failed");
    let mut parser = Parser::new(toks);
    parser.parse_ast().expect_err("parsing should fail")
}

fn same_tok(a: &Token, b: &Token) -> bool {
    // positions are where the tokens were found; shape ignores them
    a.kind == b.kind && a.value == b.value
}

fn same_term(a: &NodeTerm, b: &NodeTerm) -> bool {
    match (a, b) {
        (NodeTerm::Ident(x), NodeTerm::Ident(y)) => same_tok(x, y),
        (NodeTerm::IntLit(x), NodeTerm::IntLit(y)) => same_tok(x, y),
        _ => false,
    }
}

fn same_expr(a: &NodeExpr, b: &NodeExpr) -> bool {
    match (a, b) {
        (
            NodeExpr::BinaryExpr { op: o1, lhs: l1, rhs: r1 },
            NodeExpr::BinaryExpr { op: o2, lhs: l2, rhs: r2 },
        ) => o1 == o2 && same_expr(l1, l2) && same_expr(r1, r2),
        (
            NodeExpr::UnaryExpr { op: o1, operand: p1 },
            NodeExpr::UnaryExpr { op: o2, operand: p2 },
        ) => o1 == o2 && same_expr(p1, p2),
        (NodeExpr::Term(t1), NodeExpr::Term(t2)) => same_term(t1, t2),
        _ => false,
    }
}

fn int_lit(text: &str) -> NodeExpr {
    NodeExpr::Term(NodeTerm::IntLit(Token {
        kind: TokenKind::IntLit,
        value: Some(text.to_string()),
        pos: (0, 0),
    }))
}

fn binary(op: TokenKind, lhs: NodeExpr, rhs: NodeExpr) -> NodeExpr {
    NodeExpr::BinaryExpr { op, lhs: Box::new(lhs), rhs: Box::new(rhs) }
}

fn exit_expr(src: &str) -> NodeExpr {
    let ast = parse(src);
    assert_eq!(ast.stmts.len(), 1);
    match ast.stmts.into_iter().next().unwrap() {
        NodeStmt::Exit(e) => e,
        other => panic!("expected an exit statement, found {:?}", other),
    }
}

#[test]
fn precedence_mul_binds_before_add() {
    // 1 + 2 * 3  parses as  Add(1, Mul(2, 3))
    let e = exit_expr("exit(1 + 2 * 3);");
    let expected = binary(
        TokenKind::Add,
        int_lit("1"),
        binary(TokenKind::Mul, int_lit("2"), int_lit("3")),
    );
    assert!(same_expr(&e, &expected));
}

#[test]
fn precedence_mul_first_then_add() {
    // 2 * 3 + 1  parses as  Add(Mul(2, 3), 1)
    let e = exit_expr("exit(2 * 3 + 1);");
    let expected = binary(
        TokenKind::Add,
        binary(TokenKind::Mul, int_lit("2"), int_lit("3")),
        int_lit("1"),
    );
    assert!(same_expr(&e, &expected));
}

#[test]
fn unary_minus_disambiguates_from_subtraction() {
    // -1 + 2  parses as  Add(Neg(1), 2), not a binary-subtract misparse
    let e = exit_expr("exit(-1 + 2);");
    let expected = binary(
        TokenKind::Add,
        NodeExpr::UnaryExpr { op: TokenKind::Sub, operand: Box::new(int_lit("1")) },
        int_lit("2"),
    );
    assert!(same_expr(&e, &expected));
}

#[test]
fn parentheses_group_subexpressions() {
    let e = exit_expr("exit((1 + 2) * 3);");
    let expected = binary(
        TokenKind::Mul,
        binary(TokenKind::Add, int_lit("1"), int_lit("2")),
        int_lit("3"),
    );
    assert!(same_expr(&e, &expected));
}

#[test]
fn compound_assign_desugars_like_the_written_form() {
    // x += 1;  produces an assignment identical in shape to  x = x + 1;
    let a = parse("x += 1;");
    let b = parse("x = x + 1;");
    assert_eq!(a.stmts.len(), 1);
    assert_eq!(b.stmts.len(), 1);
    match (&a.stmts[0], &b.stmts[0]) {
        (
            NodeStmt::Assign { ident: i1, expr: e1 },
            NodeStmt::Assign { ident: i2, expr: e2 },
        ) => {
            assert!(same_tok(i1, i2));
            assert!(same_expr(e1, e2));
        },
        other => panic!("expected two assignments, found {:?}", other),
    }
}

#[test]
fn compound_shift_desugars_too() {
    let a = parse("x <<= 2;");
    let b = parse("x = x << 2;");
    match (&a.stmts[0], &b.stmts[0]) {
        (
            NodeStmt::Assign { ident: i1, expr: e1 },
            NodeStmt::Assign { ident: i2, expr: e2 },
        ) => {
            assert!(same_tok(i1, i2));
            assert!(same_expr(e1, e2));
        },
        other => panic!("expected two assignments, found {:?}", other),
    }
}

#[test]
fn statement_forms_parse() {
    let ast = parse("let mut x: u32 = 1; while x < 3 { x = x + 1; } if x == 3 { exit(x); } else if x > 3 { exit(1); } else { exit(0); }");
    assert_eq!(ast.stmts.len(), 3);
    assert!(matches!(ast.stmts[0], NodeStmt::VarDecl { mutable: true, ptr: false, .. }));
    assert!(matches!(ast.stmts[1], NodeStmt::While { .. }));
    match &ast.stmts[2] {
        NodeStmt::If { branches, .. } => {
            assert_eq!(branches.len(), 2);
            assert!(matches!(branches[0], NodeStmt::ElseIf { .. }));
            assert!(matches!(branches[1], NodeStmt::Else(_)));
        },
        other => panic!("expected an if chain, found {:?}", other),
    }
}

#[test]
fn fn_declarations_parse() {
    let ast = parse("fn add3(a: u32, b: u32, c: u32) -> u32 { return a; }");
    match &ast.stmts[0] {
        NodeStmt::FnDecl { args, ret_type_tok, .. } => {
            assert_eq!(args.len(), 3);
            assert!(ret_type_tok.is_some());
        },
        other => panic!("expected a function declaration, found {:?}", other),
    }
}

#[test]
fn naked_scope_and_break_parse() {
    let ast = parse("{ break; }");
    match &ast.stmts[0] {
        NodeStmt::NakedScope(scope) => {
            assert_eq!(scope.stmts.len(), 1);
            assert!(matches!(scope.stmts[0], NodeStmt::Break));
        },
        other => panic!("expected a naked scope, found {:?}", other),
    }
}

#[test]
fn missing_semicolon_is_an_error() {
    let err = parse_err("exit(1)");
    assert!(matches!(err, SyntaxError::UnexpectedEnd));
    let err = parse_err("exit(1) exit(2);");
    assert!(matches!(
        err,
        SyntaxError::UnexpectedToken { expected: TokenKind::SemiColon, .. }
    ));
}

#[test]
fn exit_requires_parentheses() {
    let err = parse_err("exit 1;");
    assert!(matches!(
        err,
        SyntaxError::UnexpectedToken { expected: TokenKind::OpenParen, .. }
    ));
}

#[test]
fn naked_expression_is_an_error() {
    let err = parse_err("x + 1;");
    assert!(matches!(err, SyntaxError::NakedExpression { .. }));
}

#[test]
fn a_literal_statement_is_invalid() {
    let err = parse_err("5;");
    assert!(matches!(err, SyntaxError::InvalidStatement { .. }));
}

#[test]
fn an_operator_is_no_term() {
    let err = parse_err("exit(*);");
    assert!(matches!(err, SyntaxError::InvalidTerm { .. }));
}
