//! Checker behavior: scope discipline, narrowing, loop context,
//! mutability, and the other semantic rules.

use smallc::lex::Lexer;
use smallc::parse::Parser;
use smallc::semantic::{Checker, HandoffData, AddressingMode};
use smallc::parse::NodeStmt;
use smallc::errors::SemanticError;

fn check(src: &str) -> Result<HandoffData, SemanticError> {
    let mut lexer = Lexer::new(vec![src.to_string()]);
    let toks = lexer.tokenize().expect("lexing failed");
    let mut parser = Parser::new(toks);
    let ast = parser.parse_ast().expect("parsing failed");
    Checker::check_ast(ast)
}

fn check_err(src: &str) -> SemanticError {
    check(src).expect_err("checking should fail")
}

#[test]
fn scoped_variable_is_unresolvable_after_its_scope() {
    // inside the braces x resolves; the moment they close it is gone
    assert!(check("{ let x: u32 = 1; exit(x); }").is_ok());
    let err = check_err("{ let x: u32 = 1; } exit(x);");
    assert!(matches!(err, SemanticError::UnknownVariable { .. }));
}

#[test]
fn sibling_scope_may_redeclare_the_name() {
    assert!(check("{ let x: u32 = 1; } { let x: u32 = 2; }").is_ok());
}

#[test]
fn redeclaring_a_visible_name_collides() {
    let err = check_err("let x: u32 = 1; { let x: u32 = 2; }");
    assert!(matches!(err, SemanticError::DuplicateVariable { .. }));
}

#[test]
fn narrowing_assignment_is_rejected() {
    let err = check_err("let a: u64 = 1; let mut b: u8 = 0; b = a;");
    match err {
        SemanticError::NarrowingAssign { var_width, expr_width, .. } => {
            assert_eq!(var_width, 1);
            assert_eq!(expr_width, 8);
        },
        other => panic!("expected a narrowing rejection, found {:?}", other),
    }
}

#[test]
fn unsized_literal_coerces_regardless_of_value() {
    // a literal carries no width, so any integer destination accepts it
    assert!(check("let b: u8 = 123456789;").is_ok());
    assert!(check("let b: u64 = 3;").is_ok());
    assert!(check("let b: i8 = -120;").is_ok());
}

#[test]
fn break_outside_a_loop_is_rejected() {
    let err = check_err("break;");
    assert!(matches!(err, SemanticError::NotInLoop));
    let err = check_err("{ break; }");
    assert!(matches!(err, SemanticError::NotInLoop));
}

#[test]
fn break_inside_a_loop_checks() {
    assert!(check("let a: u32 = 0; while a < 1 { break; }").is_ok());
}

#[test]
fn break_after_a_loop_is_outside_it_again() {
    let err = check_err("let a: u32 = 0; while a < 1 { break; } break;");
    assert!(matches!(err, SemanticError::NotInLoop));
}

#[test]
fn assigning_a_constant_is_rejected() {
    let err = check_err("let x: u32 = 1; x = 2;");
    assert!(matches!(err, SemanticError::AssignToConstant { .. }));
    assert!(check("let mut x: u32 = 1; x = 2;").is_ok());
}

#[test]
fn if_condition_must_be_boolean() {
    let err = check_err("if 1 { exit(0); }");
    assert!(matches!(err, SemanticError::NonBooleanCondition));
    assert!(check("let a: u32 = 1; if a == a { exit(0); }").is_ok());
}

#[test]
fn unknown_names_are_rejected() {
    assert!(matches!(check_err("exit(x);"), SemanticError::UnknownVariable { .. }));
    assert!(matches!(check_err("let x: foo = 1;"), SemanticError::UnknownType { .. }));
}

#[test]
fn type_names_are_reserved() {
    let err = check_err("let u32: u32 = 1;");
    assert!(matches!(err, SemanticError::ReservedTypeName { .. }));
}

#[test]
fn literal_unifies_on_either_side() {
    // an unsized literal unifies unconditionally, whichever operand it is
    assert!(check("let b: bool = 1;").is_ok());
    assert!(check("let b: bool = 1; if b == 5 { exit(1); }").is_ok());
    assert!(check("let b: bool = 1; if 5 == b { exit(1); }").is_ok());
    assert!(check("let a: u32 = 0; exit(a + 1);").is_ok());
    assert!(check("let a: u32 = 0; exit(1 + a);").is_ok());
}

#[test]
fn logical_operators_demand_boolean_operands() {
    // both sides must already be bool, whatever backs them
    let err = check_err("if 1 && 2 { exit(1); }");
    assert!(matches!(err, SemanticError::BooleanOperand { .. }));
    let err = check_err("let a: bool = 1; if a && 2 { exit(1); }");
    assert!(matches!(err, SemanticError::BooleanOperand { .. }));
    assert!(check("let a: bool = 1; let b: bool = 0; if a && b { exit(1); }").is_ok());
    assert!(check("let a: bool = 1; let b: bool = 0; if a || b { exit(1); }").is_ok());
}

#[test]
fn operand_signs_must_match() {
    let err = check_err("let a: u32 = 0; let b: i32 = 0; exit(a + b);");
    assert!(matches!(err, SemanticError::SignMismatch));
}

#[test]
fn negation_needs_a_signed_operand() {
    let err = check_err("let a: u32 = 0; exit(-a);");
    assert!(matches!(err, SemanticError::SignedOperand { .. }));
    assert!(check("let a: i32 = 0; exit(-a);").is_ok());
}

#[test]
fn pointer_rules() {
    // address-of needs storage; dereference needs a pointer
    assert!(check("let mut a: u64 = 1; let p: ^u64 = &a; exit(^p);").is_ok());
    let err = check_err("exit(&1);");
    assert!(matches!(err, SemanticError::AddressableOperand { .. }));
    let err = check_err("let a: u64 = 1; exit(^a);");
    assert!(matches!(err, SemanticError::PointerOperand { .. }));
}

#[test]
fn assignment_must_keep_the_addressing_mode() {
    let err = check_err("let a: u64 = 1; let mut p: ^u64 = 2;");
    assert!(matches!(err, SemanticError::AddressingMismatch));
}

#[test]
fn fn_declarations_check_their_parts() {
    assert!(check("fn f(a: u32, b: u64) { }").is_ok());
    let err = check_err("fn f(a: u32, a: u64) { }");
    assert!(matches!(err, SemanticError::DuplicateArgument { .. }));
    let err = check_err("fn f(a: zzz) { }");
    assert!(matches!(err, SemanticError::UnknownType { .. }));
    let err = check_err("fn f() -> zzz { }");
    assert!(matches!(err, SemanticError::UnknownType { .. }));
    let err = check_err("fn f() -> u32 { }");
    assert!(matches!(err, SemanticError::MissingReturn));
    let err = check_err("fn f() -> u32 { return; }");
    assert!(matches!(err, SemanticError::MismatchedReturn));
    let err = check_err("fn f() -> u32 { exit(1); }");
    assert!(matches!(err, SemanticError::MissingReturn));
}

#[test]
fn duplicate_function_names_collide() {
    let err = check_err("fn f() { } fn f() { }");
    assert!(matches!(err, SemanticError::DuplicateFunction { .. }));
}

#[test]
fn declarations_are_rewritten_into_annotated_nodes() {
    let data = check("let x: u16 = 1; fn f() { }").expect("checking failed");
    match &data.ast.stmts[0] {
        NodeStmt::VarSemantics(var) => {
            assert_eq!(var.width, 2);
            assert!(!var.mutable);
        },
        other => panic!("expected variable semantics, found {:?}", other),
    }
    assert!(matches!(data.ast.stmts[1], NodeStmt::FnSemantics(_)));
    // the registry still carries the fixed base types
    assert_eq!(data.types.len(), 14);
    assert_eq!(data.types[0].ident, "void");
}

#[test]
fn pointer_declarations_widen_to_pointer_width() {
    let data = check("let mut a: u8 = 1; let p: ^u8 = &a;").expect("checking failed");
    match &data.ast.stmts[1] {
        NodeStmt::VarSemantics(var) => {
            assert_eq!(var.width, 8);
            assert_eq!(var.addr_mode, AddressingMode::Pointer);
        },
        other => panic!("expected variable semantics, found {:?}", other),
    }
}
