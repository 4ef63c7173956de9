//! Generator behavior: end-to-end lowering of programs to assembly text.

use smallc::lex::Lexer;
use smallc::parse::Parser;
use smallc::semantic::Checker;
use smallc::code_gen::Generator;
use smallc::errors::CodegenError;

fn lower(src: &str) -> Result<String, CodegenError> {
    let mut lexer = Lexer::new(vec![src.to_string()]);
    let toks = lexer.tokenize().expect("lexing failed");
    let mut parser = Parser::new(toks);
    let ast = parser.parse_ast().expect("parsing failed");
    let data = Checker::check_ast(ast).expect("checking failed");
    let mut generator = Generator::new(data);
    generator.gen_asm()
}

fn lower_ok(src: &str) -> String {
    lower(src).expect("lowering failed")
}

#[test]
fn exit_of_a_constant_expression_computes_into_the_exit_register() {
    // 1 + 2 * 3 lowers to code that computes 7 into rdi, then the fixed
    // syscall sequence
    let text = lower_ok("exit(1+2*3);");
    assert_eq!(
        text,
        "global main\n\
         ; Exit Program\n\
         \x20   mov rax, 1\n\
         \x20   mov rcx, 2\n\
         \x20   mov rsi, 3\n\
         \x20   imul rcx, rsi\n\
         \x20   add rax, rcx\n\
         \x20   mov rdi, rax\n\
         \x20   mov rax, 60\n\
         \x20   syscall\n"
    );
}

#[test]
fn if_else_lowers_to_inverted_jump_false_label_and_end_label() {
    let text = lower_ok("let a: u32 = 0; let b: u32 = 0; if a == b { exit(1); } else { exit(0); }");
    assert_eq!(
        text,
        "global main\n\
         \x20   mov dword [rbp-4], 0\n\
         \x20   mov dword [rbp-8], 0\n\
         ; If\n\
         \x20   mov rax, [rbp-4]\n\
         \x20   mov rcx, [rbp-8]\n\
         \x20   cmp rax, rcx\n\
         \x20   sete al\n\
         \x20   movzx rax, al\n\
         \x20   cmp rax, 0\n\
         \x20   je .2_IF_FALSE\n\
         ; Exit Program\n\
         \x20   mov rdi, 1\n\
         \x20   mov rax, 60\n\
         \x20   syscall\n\
         \x20   jmp .1_END_IF\n\
         .2_IF_FALSE:\n\
         ; Else\n\
         ; Exit Program\n\
         \x20   mov rdi, 0\n\
         \x20   mov rax, 60\n\
         \x20   syscall\n\
         .1_END_IF:\n"
    );
}

#[test]
fn if_without_branches_has_no_end_label() {
    let text = lower_ok("let a: u32 = 0; if a == a { exit(1); } exit(0);");
    assert!(!text.contains("END_IF"));
    assert!(text.contains("IF_FALSE"));
}

#[test]
fn while_lowers_to_a_bottom_condition_check() {
    let text = lower_ok("let mut i: u64 = 0; while i < 3 { i = i + 1; } exit(i);");
    // jump to the check, the body label, the check label, a conditional
    // jump back, then the loop's end label
    assert_eq!(
        text,
        "global main\n\
         \x20   mov qword [rbp-8], 0\n\
         ; While\n\
         \x20   jmp .1_WHILE_CMP\n\
         .2_WHILE_SCOPE:\n\
         \x20   mov rax, [rbp-8]\n\
         \x20   mov rcx, 1\n\
         \x20   add rax, rcx\n\
         \x20   mov qword [rbp-8], rax\n\
         .1_WHILE_CMP:\n\
         \x20   mov rax, [rbp-8]\n\
         \x20   mov rcx, 3\n\
         \x20   cmp rax, rcx\n\
         \x20   setl al\n\
         \x20   movzx rax, al\n\
         \x20   cmp rax, 0\n\
         \x20   jne .2_WHILE_SCOPE\n\
         .3_WHILE_END:\n\
         ; Exit Program\n\
         \x20   mov rdi, [rbp-8]\n\
         \x20   mov rax, 60\n\
         \x20   syscall\n"
    );
}

#[test]
fn break_jumps_to_the_innermost_loop_end() {
    let text = lower_ok("let a: u32 = 0; while a < 1 { break; }");
    assert!(text.contains("    jmp .3_WHILE_END ; break\n"));
}

#[test]
fn nested_loops_break_to_their_own_end_labels() {
    let text = lower_ok(
        "let a: u32 = 0; while a < 1 { while a < 2 { break; } break; }",
    );
    // the inner break targets the inner loop's end label, the outer
    // break the outer loop's
    assert!(text.contains("    jmp .6_WHILE_END ; break\n"));
    assert!(text.contains("    jmp .3_WHILE_END ; break\n"));
}

#[test]
fn scopes_reserve_and_release_frame_bytes() {
    let text = lower_ok("{ let a: u64 = 1; let b: u16 = 2; } { let c: u8 = 3; }");
    // each scope prefixes one stack-pointer adjustment for its own bytes
    assert!(text.contains("    sub rsp, 10\n"));
    assert!(text.contains("    sub rsp, 1\n"));
    // the sibling scope reuses the released frame bytes
    assert!(text.contains("    mov byte [rbp-1], 3\n"));
}

#[test]
fn assignment_writes_through_the_sized_operand() {
    let text = lower_ok("let mut a: u16 = 1; a = 2;");
    assert!(text.contains("    mov word [rbp-2], 1\n"));
    assert!(text.contains("    mov word [rbp-2], 2\n"));
}

#[test]
fn address_of_and_dereference_lower() {
    let text = lower_ok("let mut a: u64 = 7; let p: ^u64 = &a; exit(^p);");
    assert!(text.contains("    lea rax, [rbp-8]\n"));
    assert!(text.contains("    mov qword [rbp-16], rax\n"));
    assert!(text.contains("    mov rax, [rax]\n"));
}

#[test]
fn logical_and_short_circuits_with_labels() {
    let text = lower_ok("if 1 == 1 && 2 == 3 { exit(1); }");
    assert!(text.contains("; LogicalAnd\n"));
    assert!(text.contains("AND_FALSE"));
    assert!(text.contains("AND_END"));
}

#[test]
fn logical_and_over_variables_lowers() {
    let text = lower_ok("let a: bool = 1; let b: bool = 0; if a && b { exit(1); }");
    assert!(text.contains("; LogicalAnd\n"));
}

#[test]
fn logical_or_short_circuits_with_labels() {
    let text = lower_ok("if 1 == 2 || 3 == 3 { exit(1); }");
    assert!(text.contains("; CmpOr\n"));
    assert!(text.contains("OR_TRUE"));
    assert!(text.contains("OR_END"));
}

#[test]
fn register_pool_exhaustion_is_a_typed_error() {
    let err = lower("exit(1+(2+(3+(4+(5+(6+(7+(8+9))))))));")
        .expect_err("nine live operands outgrow eight scratch registers");
    assert_eq!(err, CodegenError::OutOfRegisters);
}

#[test]
fn division_uses_the_high_half_register() {
    let text = lower_ok("exit(7 / 2);");
    assert!(text.contains("    cqo\n    idiv rcx\n"));
    let text = lower_ok("exit(7 % 2);");
    assert!(text.contains("    cqo\n    idiv rcx\n    mov rax, rdx\n"));
}
