//! Code generation: the annotated tree to 64-bit assembly text.
//!
//! The generator keeps its own scope stack, re-derived from the annotated
//! nodes, a running stack offset from the frame base, a fixed pool of
//! eight scratch registers managed as a stack, and a label counter for
//! control flow. Expressions lower operands left to right into adjacent
//! registers and release them right to left; `if` chains use an inverted
//! test-and-jump; `while` loops jump to a bottom condition check; `break`
//! jumps to the innermost loop's recorded end label.

use vstd::prelude::*;
use crate::lex::{Token, TokenModel, TokenKind, flags_of, push_char};
use crate::parse::{NodeExpr, NodeTerm, NodeStmt, NodeScope, AST, ExprModel, TermModel, StmtModel, ScopeModel, stmts_model, stmt_model};
use crate::semantic::{SemVariable, HandoffData};
use crate::errors::{CodegenError, CodegenErrorModel};

verus! {

// ---------------------------------------------------------------------------
// Text pieces: decimal, hexadecimal, registers, labels, operands
// ---------------------------------------------------------------------------

/// The decimal digit for one value below ten.
pub open spec fn dec_digit(d: int) -> char {
    if d == 0 { '0' } else if d == 1 { '1' } else if d == 2 { '2' } else if d == 3 { '3' }
    else if d == 4 { '4' } else if d == 5 { '5' } else if d == 6 { '6' } else if d == 7 { '7' }
    else if d == 8 { '8' } else { '9' }
}

/// The uppercase hexadecimal digit for one value below sixteen.
pub open spec fn hex_digit(d: int) -> char {
    if d < 10 { dec_digit(d) } else if d == 10 { 'A' } else if d == 11 { 'B' }
    else if d == 12 { 'C' } else if d == 13 { 'D' } else if d == 14 { 'E' } else { 'F' }
}

/// The decimal spelling of a number, most significant digit first.
pub open spec fn dec_str(n: nat) -> Seq<char>
    decreases n,
{
    if n < 10 {
        seq![dec_digit(n as int)]
    } else {
        dec_str(n / 10) + seq![dec_digit((n % 10) as int)]
    }
}

/// The uppercase hexadecimal spelling of a number.
pub open spec fn hex_str(n: nat) -> Seq<char>
    decreases n,
{
    if n < 16 {
        seq![hex_digit(n as int)]
    } else {
        hex_str(n / 16) + seq![hex_digit((n % 16) as int)]
    }
}

/// The fixed ordered pool of eight scratch registers, position `i`.
pub open spec fn reg_name(i: int) -> Seq<char> {
    if i == 0 { "rax"@ } else if i == 1 { "rcx"@ } else if i == 2 { "rsi"@ }
    else if i == 3 { "rdi"@ } else if i == 4 { "r8"@ } else if i == 5 { "r9"@ }
    else if i == 6 { "r10"@ } else { "r11"@ }
}

/// The register holding pool slot `index`, counted from one as the
/// allocation counter does; zero is an empty-pool read, past eight the
/// pool is exhausted.
pub open spec fn spec_get_reg(index: int) -> Result<Seq<char>, CodegenErrorModel> {
    if index <= 0 {
        Err(CodegenErrorModel::Internal)
    } else if index > 8 {
        Err(CodegenErrorModel::OutOfRegisters)
    } else {
        Ok(reg_name(index - 1))
    }
}

/// A locally-scoped generated label: a dot, the counter in uppercase
/// hexadecimal, an underscore and the construct's name.
pub open spec fn label_text(count: nat, name: Seq<char>) -> Seq<char> {
    seq!['.'] + hex_str(count) + seq!['_'] + name
}

/// A frame-base-relative operand without a size prefix.
pub open spec fn var_access_text(idx: nat) -> Seq<char> {
    "[rbp-"@ + dec_str(idx) + "]"@
}

/// The operand-size prefix for a width, where one exists.
pub open spec fn access_size_name(w: int) -> Option<Seq<char>> {
    if w == 1 { Some("byte"@) } else if w == 2 { Some("word"@) } else if w == 4 {
        Some("dword"@)
    } else if w == 8 { Some("qword"@) } else { None }
}

/// A frame-base-relative operand with its size prefix.
pub open spec fn stk_access_text(w: int, idx: nat) -> Result<Seq<char>, CodegenErrorModel> {
    match access_size_name(w) {
        Some(sz) => Ok(sz + " [rbp-"@ + dec_str(idx) + "]"@),
        None => Err(CodegenErrorModel::InvalidWidth { width: w as usize }),
    }
}

/// The condition-code suffix of a comparison operator.
pub open spec fn cmp_modifier_of(op: TokenKind) -> Option<Seq<char>> {
    if op == TokenKind::CmpEq { Some("e"@) } else if op == TokenKind::NotEq { Some("ne"@) }
    else if op == TokenKind::Gt { Some("g"@) } else if op == TokenKind::GtEq { Some("ge"@) }
    else if op == TokenKind::Lt { Some("l"@) } else if op == TokenKind::LtEq { Some("le"@) }
    else { None }
}

// ---------------------------------------------------------------------------
// The generator's specification
// ---------------------------------------------------------------------------

/// Mathematical model of a [`GenVariable`].
pub struct GenVariableModel {
    pub ident: TokenModel,
    pub width: usize,
    pub type_id: usize,
    pub stk_index: u64,
}

/// The generator's abstract state: the frame offset, the register
/// allocation counter, the label counter, the stacks of pending `if` and
/// loop end labels, and the shadow variable stack.
pub struct GenModel {
    pub stk_pos: int,
    pub reg_count: int,
    pub label_count: int,
    pub endif_labels: Seq<Seq<char>>,
    pub loop_end_labels: Seq<Seq<char>>,
    pub stack: Seq<GenVariableModel>,
}

/// A lowering outcome: emitted text and the state after it, or the first
/// failure.
pub enum GRes<T> {
    Emitted { v: T, st: GenModel },
    Fail(CodegenErrorModel),
}

/// The most recently declared live variable of this name.
pub open spec fn lookup_gen_var(stack: Seq<GenVariableModel>, name: Seq<char>) -> Option<int>
    decreases stack.len(),
{
    if stack.len() == 0 {
        None
    } else if stack.last().ident.value == Some(name) {
        Some(stack.len() - 1)
    } else {
        lookup_gen_var(stack.drop_last(), name)
    }
}

/// A fresh label from the counter; the counter is a finite resource.
pub open spec fn spec_gen_label(g: GenModel, name: Seq<char>) -> GRes<Seq<char>> {
    if g.label_count >= 0xFFFF_FFFF_FFFF_FFFFu64 as int {
        GRes::Fail(CodegenErrorModel::TooManyLabels)
    } else {
        GRes::Emitted {
            v: label_text((g.label_count + 1) as nat, name),
            st: GenModel { label_count: g.label_count + 1, ..g },
        }
    }
}

/// One more register claimed from the pool.
pub open spec fn spec_next_reg(g: GenModel) -> GRes<Seq<char>> {
    if g.reg_count >= 8 {
        GRes::Fail(CodegenErrorModel::OutOfRegisters)
    } else {
        GRes::Emitted { v: reg_name(g.reg_count), st: GenModel { reg_count: g.reg_count + 1, ..g } }
    }
}

/// The most recently claimed register released.
pub open spec fn spec_release_reg(g: GenModel) -> GRes<()> {
    if g.reg_count <= 0 {
        GRes::Fail(CodegenErrorModel::Internal)
    } else {
        GRes::Emitted { v: (), st: GenModel { reg_count: g.reg_count - 1, ..g } }
    }
}

/// The move of an expression result into its destination, where one was
/// supplied, releasing the result's register.
pub open spec fn spec_ans_tail(g: GenModel, body: Seq<char>, ans: Option<Seq<char>>) -> GRes<
    Seq<char>,
> {
    match ans {
        None => GRes::Emitted { v: body, st: g },
        Some(a) => match spec_get_reg(g.reg_count) {
            Err(e) => GRes::Fail(e),
            Ok(reg) => match spec_release_reg(g) {
                GRes::Fail(e) => GRes::Fail(e),
                GRes::Emitted { st: g2, .. } => GRes::Emitted {
                    v: body + "    mov "@ + a + ", "@ + reg + "\n"@,
                    st: g2,
                },
            },
        },
    }
}

/// A literal or a variable read, lowered into the supplied destination or
/// into the next free register.
pub open spec fn spec_gen_term(g: GenModel, t: TermModel, ans: Option<Seq<char>>) -> GRes<
    Seq<char>,
> {
    match t {
        TermModel::IntLit(tok) => match tok.value {
            None => GRes::Fail(CodegenErrorModel::MissingValue),
            Some(text) => match ans {
                Some(a) => GRes::Emitted { v: "    mov "@ + a + ", "@ + text + "\n"@, st: g },
                None => match spec_next_reg(g) {
                    GRes::Fail(e) => GRes::Fail(e),
                    GRes::Emitted { v: reg, st: g2 } => GRes::Emitted {
                        v: "    mov "@ + reg + ", "@ + text + "\n"@,
                        st: g2,
                    },
                },
            },
        },
        TermModel::Ident(tok) => match tok.value {
            None => GRes::Fail(CodegenErrorModel::MissingValue),
            Some(name) => match lookup_gen_var(g.stack, name) {
                None => GRes::Fail(CodegenErrorModel::UnknownVariable { ident: tok }),
                Some(i) => {
                    let access = var_access_text(g.stack[i].stk_index as nat);
                    match ans {
                        Some(a) => GRes::Emitted {
                            v: "    mov "@ + a + ", "@ + access + "\n"@,
                            st: g,
                        },
                        None => match spec_next_reg(g) {
                            GRes::Fail(e) => GRes::Fail(e),
                            GRes::Emitted { v: reg, st: g2 } => GRes::Emitted {
                                v: "    mov "@ + reg + ", "@ + access + "\n"@,
                                st: g2,
                            },
                        },
                    }
                },
            },
        },
    }
}

/// The text of an arithmetic operation over the two topmost registers;
/// division and remainder go through the high-half register convention.
pub open spec fn spec_gen_arithmetic(g: GenModel, op: TokenKind) -> Result<
    Seq<char>,
    CodegenErrorModel,
> {
    match spec_get_reg(g.reg_count - 1) {
        Err(e) => Err(e),
        Ok(reg1) => match spec_get_reg(g.reg_count) {
            Err(e) => Err(e),
            Ok(reg2) => if op == TokenKind::Add {
                Ok("    add "@ + reg1 + ", "@ + reg2 + "\n"@)
            } else if op == TokenKind::Sub {
                Ok("    sub "@ + reg1 + ", "@ + reg2 + "\n"@)
            } else if op == TokenKind::Mul {
                Ok("    imul "@ + reg1 + ", "@ + reg2 + "\n"@)
            } else if op == TokenKind::Quo {
                Ok("    cqo\n    idiv "@ + reg2 + "\n"@)
            } else if op == TokenKind::Mod {
                Ok("    cqo\n    idiv "@ + reg2 + "\n    mov "@ + reg1 + ", rdx\n"@)
            } else {
                Err(CodegenErrorModel::Internal)
            },
        },
    }
}

/// The text of a bitwise operation over the two topmost registers.
pub open spec fn spec_gen_bitwise(g: GenModel, op: TokenKind) -> Result<
    Seq<char>,
    CodegenErrorModel,
> {
    match spec_get_reg(g.reg_count - 1) {
        Err(e) => Err(e),
        Ok(reg1) => match spec_get_reg(g.reg_count) {
            Err(e) => Err(e),
            Ok(reg2) => {
                let mnemonic: Option<Seq<char>> = if op == TokenKind::Bar {
                    Some("or"@)
                } else if op == TokenKind::Tilde {
                    Some("xor"@)
                } else if op == TokenKind::Ampersand {
                    Some("and"@)
                } else if op == TokenKind::Shl {
                    Some("sal"@)
                } else if op == TokenKind::Shr {
                    Some("sar"@)
                } else {
                    None
                };
                match mnemonic {
                    Some(m) => Ok("    "@ + m + " "@ + reg1 + ", "@ + reg2 + "\n"@),
                    None => Err(CodegenErrorModel::Internal),
                }
            },
        },
    }
}

/// The text of a comparison: compare, conditional set, zero-extend.
pub open spec fn spec_gen_comparison(g: GenModel, op: TokenKind) -> Result<
    Seq<char>,
    CodegenErrorModel,
> {
    match spec_get_reg(g.reg_count - 1) {
        Err(e) => Err(e),
        Ok(reg1) => match spec_get_reg(g.reg_count) {
            Err(e) => Err(e),
            Ok(reg2) => match cmp_modifier_of(op) {
                None => Err(CodegenErrorModel::Internal),
                Some(m) => Ok(
                    "    cmp "@ + reg1 + ", "@ + reg2 + "\n    set"@ + m + " al\n    movzx "@
                        + reg1 + ", al\n"@,
                ),
            },
        },
    }
}

/// A short-circuiting logical operation: the right operand is evaluated
/// only when the left does not already decide the result, which lands in
/// the left operand's register.
pub open spec fn spec_gen_logical(
    g: GenModel,
    op: TokenKind,
    lhs_asm: Seq<char>,
    rhs_asm: Seq<char>,
) -> GRes<Seq<char>> {
    match spec_get_reg(g.reg_count - 1) {
        Err(e) => GRes::Fail(e),
        Ok(reg1) => match spec_get_reg(g.reg_count) {
            Err(e) => GRes::Fail(e),
            Ok(reg2) => if op == TokenKind::CmpAnd {
                match spec_gen_label(g, "AND_FALSE"@) {
                    GRes::Fail(e) => GRes::Fail(e),
                    GRes::Emitted { v: false_label, st: g1 } => match spec_gen_label(
                        g1,
                        "AND_END"@,
                    ) {
                        GRes::Fail(e) => GRes::Fail(e),
                        GRes::Emitted { v: end_label, st: g2 } => GRes::Emitted {
                            v: "; LogicalAnd\n"@ + lhs_asm + "    cmp "@ + reg1 + ", 0\n    je "@
                                + false_label + "\n"@ + rhs_asm + "    cmp "@ + reg2
                                + ", 0\n    je "@ + false_label + "\n    mov "@ + reg1
                                + ", 1\n    jmp "@ + end_label + "\n"@ + false_label
                                + ":\n    mov "@ + reg1 + ", 0\n"@ + end_label + ":\n"@,
                            st: g2,
                        },
                    },
                }
            } else if op == TokenKind::CmpOr {
                match spec_gen_label(g, "OR_TRUE"@) {
                    GRes::Fail(e) => GRes::Fail(e),
                    GRes::Emitted { v: true_label, st: g1 } => match spec_gen_label(g1, "OR_END"@) {
                        GRes::Fail(e) => GRes::Fail(e),
                        GRes::Emitted { v: end_label, st: g2 } => GRes::Emitted {
                            v: "; CmpOr\n"@ + lhs_asm + "    cmp "@ + reg1 + ", 0\n    jne "@
                                + true_label + "\n"@ + rhs_asm + "    cmp "@ + reg2
                                + ", 0\n    jne "@ + true_label + "\n    mov "@ + reg1
                                + ", 0\n    jmp "@ + end_label + "\n"@ + true_label
                                + ":\n    mov "@ + reg1 + ", 1\n"@ + end_label + ":\n"@,
                            st: g2,
                        },
                    },
                }
            } else {
                GRes::Fail(CodegenErrorModel::Internal)
            },
        },
    }
}

/// An expression lowered: operands claim registers left to right and
/// release right to left; the result lands in the supplied destination
/// or stays in the bottom claimed register.
pub open spec fn spec_gen_expr(g: GenModel, e: ExprModel, ans: Option<Seq<char>>) -> GRes<
    Seq<char>,
>
    decreases e,
{
    match e {
        ExprModel::Term(t) => spec_gen_term(g, t, ans),
        ExprModel::BinaryExpr { op, lhs, rhs } => match spec_gen_expr(g, *lhs, None) {
            GRes::Fail(er) => GRes::Fail(er),
            GRes::Emitted { v: lhs_asm, st: g1 } => match spec_gen_expr(g1, *rhs, None) {
                GRes::Fail(er) => GRes::Fail(er),
                GRes::Emitted { v: rhs_asm, st: g2 } => {
                    let fl = flags_of(op);
                    let core: GRes<Seq<char>> = if fl.log {
                        spec_gen_logical(g2, op, lhs_asm, rhs_asm)
                    } else if fl.cmp {
                        match spec_gen_comparison(g2, op) {
                            Err(er) => GRes::Fail(er),
                            Ok(t) => GRes::Emitted { v: lhs_asm + rhs_asm + t, st: g2 },
                        }
                    } else if fl.bit {
                        match spec_gen_bitwise(g2, op) {
                            Err(er) => GRes::Fail(er),
                            Ok(t) => GRes::Emitted { v: lhs_asm + rhs_asm + t, st: g2 },
                        }
                    } else if fl.arith {
                        match spec_gen_arithmetic(g2, op) {
                            Err(er) => GRes::Fail(er),
                            Ok(t) => GRes::Emitted { v: lhs_asm + rhs_asm + t, st: g2 },
                        }
                    } else {
                        GRes::Fail(CodegenErrorModel::Internal)
                    };
                    match core {
                        GRes::Fail(er) => GRes::Fail(er),
                        GRes::Emitted { v: body, st: g3 } => match spec_release_reg(g3) {
                            GRes::Fail(er) => GRes::Fail(er),
                            GRes::Emitted { st: g4, .. } => spec_ans_tail(g4, body, ans),
                        },
                    }
                },
            },
        },
        ExprModel::UnaryExpr { op, operand } => match spec_gen_expr(g, *operand, None) {
            GRes::Fail(er) => GRes::Fail(er),
            GRes::Emitted { v: operand_asm, st: g1 } => match spec_get_reg(g1.reg_count) {
                Err(er) => GRes::Fail(er),
                Ok(reg) => {
                    let op_asm: GRes<Seq<char>> = if op == TokenKind::Tilde {
                        GRes::Emitted { v: "    not "@ + reg + "\n"@, st: g1 }
                    } else if op == TokenKind::Sub {
                        GRes::Emitted { v: "    neg "@ + reg + "\n"@, st: g1 }
                    } else if op == TokenKind::CmpNot {
                        GRes::Emitted {
                            v: "    test "@ + reg + ", "@ + reg + "\n    sete al\n    movzx "@
                                + reg + ", al\n"@,
                            st: g1,
                        }
                    } else if op == TokenKind::Ampersand {
                        match *operand {
                            ExprModel::Term(TermModel::Ident(tok)) => match tok.value {
                                None => GRes::Fail(CodegenErrorModel::MissingValue),
                                Some(name) => match lookup_gen_var(g1.stack, name) {
                                    None => GRes::Fail(
                                        CodegenErrorModel::UnknownVariable { ident: tok },
                                    ),
                                    Some(i) => GRes::Emitted {
                                        v: "    lea "@ + reg + ", "@ + var_access_text(
                                            g1.stack[i].stk_index as nat,
                                        ) + "\n"@,
                                        st: g1,
                                    },
                                },
                            },
                            _ => GRes::Fail(CodegenErrorModel::Internal),
                        }
                    } else if op == TokenKind::Ptr {
                        GRes::Emitted { v: "    mov "@ + reg + ", ["@ + reg + "]\n"@, st: g1 }
                    } else {
                        GRes::Fail(CodegenErrorModel::Internal)
                    };
                    match op_asm {
                        GRes::Fail(er) => GRes::Fail(er),
                        GRes::Emitted { v: t, st: g2 } => spec_ans_tail(g2, operand_asm + t, ans),
                    }
                },
            },
        },
    }
}

/// The widths of these variables, summed.
pub open spec fn sum_widths(vars: Seq<GenVariableModel>) -> int
    decreases vars.len(),
{
    if vars.len() == 0 {
        0
    } else {
        sum_widths(vars.drop_last()) + vars.last().width
    }
}

pub proof fn lemma_sum_widths_nonneg(vars: Seq<GenVariableModel>)
    ensures
        sum_widths(vars) >= 0,
    decreases vars.len(),
{
    if vars.len() > 0 {
        lemma_sum_widths_nonneg(vars.drop_last());
    }
}

/// One statement lowered to text.
pub open spec fn spec_gen_stmt(g: GenModel, s: StmtModel) -> GRes<Seq<char>>
    decreases s, 0int,
{
    match s {
        StmtModel::NakedScope(sc) => spec_gen_scope(g, sc),
        StmtModel::Exit(e) => match spec_gen_expr(g, e, Some("rdi"@)) {
            GRes::Fail(er) => GRes::Fail(er),
            GRes::Emitted { v: expr_asm, st: g1 } => GRes::Emitted {
                v: "; Exit Program\n"@ + expr_asm + "    mov rax, 60\n    syscall\n"@,
                st: g1,
            },
        },
        StmtModel::VarSemantics(sem_var) => match sem_var.ident.value {
            None => GRes::Fail(CodegenErrorModel::MissingValue),
            Some(name) => if lookup_gen_var(g.stack, name) is Some {
                GRes::Fail(CodegenErrorModel::Redeclaration { ident: sem_var.ident })
            } else if g.stk_pos + sem_var.width > 0xFFFF_FFFF_FFFF_FFFFu64 as int {
                GRes::Fail(CodegenErrorModel::FrameOverflow)
            } else {
                let stk_index = (g.stk_pos + sem_var.width) as u64;
                let gvar = GenVariableModel {
                    ident: sem_var.ident,
                    width: sem_var.width,
                    type_id: sem_var.type_id,
                    stk_index,
                };
                let g2 = GenModel {
                    stk_pos: g.stk_pos + sem_var.width,
                    stack: g.stack.push(gvar),
                    ..g
                };
                match sem_var.init_expr {
                    None => GRes::Emitted { v: Seq::empty(), st: g2 },
                    Some(e) => match stk_access_text(sem_var.width as int, stk_index as nat) {
                        Err(er) => GRes::Fail(er),
                        Ok(access) => spec_gen_expr(g2, e, Some(access)),
                    },
                }
            },
        },
        StmtModel::Assign { ident, expr } => match ident.value {
            None => GRes::Fail(CodegenErrorModel::MissingValue),
            Some(name) => match lookup_gen_var(g.stack, name) {
                None => GRes::Fail(CodegenErrorModel::UnknownVariable { ident }),
                Some(i) => match stk_access_text(
                    g.stack[i].width as int,
                    g.stack[i].stk_index as nat,
                ) {
                    Err(er) => GRes::Fail(er),
                    Ok(access) => spec_gen_expr(g, expr, Some(access)),
                },
            },
        },
        StmtModel::If { condition, scope, branches } => {
            let with_endif: GRes<(Seq<char>, Seq<char>)> = if branches.len() > 0 {
                match spec_gen_label(g, "END_IF"@) {
                    GRes::Fail(er) => GRes::Fail(er),
                    GRes::Emitted { v: endif, st: g1 } => GRes::Emitted {
                        v: ("    jmp "@ + endif + "\n"@, endif + ":\n"@),
                        st: GenModel { endif_labels: g1.endif_labels.push(endif), ..g1 },
                    },
                }
            } else {
                GRes::Emitted { v: (Seq::empty(), Seq::empty()), st: g }
            };
            match with_endif {
                GRes::Fail(er) => GRes::Fail(er),
                GRes::Emitted { v: jmp_goto, st: g1 } => match spec_gen_label(g1, "IF_FALSE"@) {
                    GRes::Fail(er) => GRes::Fail(er),
                    GRes::Emitted { v: false_label, st: g2 } => match spec_gen_expr(
                        g2,
                        condition,
                        None,
                    ) {
                        GRes::Fail(er) => GRes::Fail(er),
                        GRes::Emitted { v: cond_asm, st: g3 } => match spec_get_reg(g3.reg_count) {
                            Err(er) => GRes::Fail(er),
                            Ok(reg) => match spec_release_reg(g3) {
                                GRes::Fail(er) => GRes::Fail(er),
                                GRes::Emitted { st: g4, .. } => match spec_gen_scope(g4, scope) {
                                    GRes::Fail(er) => GRes::Fail(er),
                                    GRes::Emitted { v: scope_asm, st: g5 } => match
                                        spec_gen_stmt_list(g5, branches) {
                                        GRes::Fail(er) => GRes::Fail(er),
                                        GRes::Emitted { v: branches_asm, st: g6 } => {
                                            let done: GRes<Seq<char>> = if branches.len() > 0 {
                                                if g6.endif_labels.len() == 0 {
                                                    GRes::Fail(CodegenErrorModel::Internal)
                                                } else {
                                                    GRes::Emitted {
                                                        v: Seq::empty(),
                                                        st: GenModel {
                                                            endif_labels:
                                                                g6.endif_labels.drop_last(),
                                                            ..g6
                                                        },
                                                    }
                                                }
                                            } else {
                                                GRes::Emitted { v: Seq::empty(), st: g6 }
                                            };
                                            match done {
                                                GRes::Fail(er) => GRes::Fail(er),
                                                GRes::Emitted { st: g7, .. } => GRes::Emitted {
                                                    v: "; If\n"@ + cond_asm + "    cmp "@ + reg
                                                        + ", 0\n    je "@ + false_label + "\n"@
                                                        + scope_asm + jmp_goto.0 + false_label
                                                        + ":\n"@ + branches_asm + jmp_goto.1,
                                                    st: g7,
                                                },
                                            }
                                        },
                                    },
                                },
                            },
                        },
                    },
                },
            }
        },
        StmtModel::ElseIf { condition, scope } => match spec_gen_label(g, "ELIF_FALSE"@) {
            GRes::Fail(er) => GRes::Fail(er),
            GRes::Emitted { v: false_label, st: g1 } => match spec_gen_scope(g1, scope) {
                GRes::Fail(er) => GRes::Fail(er),
                GRes::Emitted { v: scope_asm, st: g2 } => match spec_gen_expr(g2, condition, None) {
                    GRes::Fail(er) => GRes::Fail(er),
                    GRes::Emitted { v: cond_asm, st: g3 } => match spec_get_reg(g3.reg_count) {
                        Err(er) => GRes::Fail(er),
                        Ok(reg) => match spec_release_reg(g3) {
                            GRes::Fail(er) => GRes::Fail(er),
                            GRes::Emitted { st: g4, .. } => if g4.endif_labels.len() == 0 {
                                GRes::Fail(CodegenErrorModel::NoEndifLabel)
                            } else {
                                GRes::Emitted {
                                    v: cond_asm + "    cmp "@ + reg + ", 0\n    je "@ + false_label
                                        + "\n"@ + scope_asm + "    jmp "@ + g4.endif_labels.last()
                                        + "\n"@ + false_label + ":\n"@,
                                    st: g4,
                                }
                            },
                        },
                    },
                },
            },
        },
        StmtModel::Else(sc) => match spec_gen_scope(g, sc) {
            GRes::Fail(er) => GRes::Fail(er),
            GRes::Emitted { v: scope_asm, st: g1 } => GRes::Emitted {
                v: "; Else\n"@ + scope_asm,
                st: g1,
            },
        },
        StmtModel::While { condition, scope } => match spec_gen_label(g, "WHILE_CMP"@) {
            GRes::Fail(er) => GRes::Fail(er),
            GRes::Emitted { v: cmp_label, st: g1 } => match spec_gen_label(g1, "WHILE_SCOPE"@) {
                GRes::Fail(er) => GRes::Fail(er),
                GRes::Emitted { v: scope_label, st: g2 } => match spec_gen_label(g2, "WHILE_END"@) {
                    GRes::Fail(er) => GRes::Fail(er),
                    GRes::Emitted { v: end_label, st: g3 } => {
                        let g4 = GenModel {
                            loop_end_labels: g3.loop_end_labels.push(end_label),
                            ..g3
                        };
                        match spec_gen_scope(g4, scope) {
                            GRes::Fail(er) => GRes::Fail(er),
                            GRes::Emitted { v: scope_asm, st: g5 } => match spec_gen_expr(
                                g5,
                                condition,
                                None,
                            ) {
                                GRes::Fail(er) => GRes::Fail(er),
                                GRes::Emitted { v: cond_asm, st: g6 } => match spec_get_reg(
                                    g6.reg_count,
                                ) {
                                    Err(er) => GRes::Fail(er),
                                    Ok(reg) => match spec_release_reg(g6) {
                                        GRes::Fail(er) => GRes::Fail(er),
                                        GRes::Emitted { st: g7, .. } => if g7.loop_end_labels.len()
                                            == 0 {
                                            GRes::Fail(CodegenErrorModel::Internal)
                                        } else {
                                            GRes::Emitted {
                                                v: "; While\n    jmp "@ + cmp_label + "\n"@
                                                    + scope_label + ":\n"@ + scope_asm + cmp_label
                                                    + ":\n"@ + cond_asm + "    cmp "@ + reg
                                                    + ", 0\n    jne "@ + scope_label + "\n"@
                                                    + end_label + ":\n"@,
                                                st: GenModel {
                                                    loop_end_labels:
                                                        g7.loop_end_labels.drop_last(),
                                                    ..g7
                                                },
                                            }
                                        },
                                    },
                                },
                            },
                        }
                    },
                },
            },
        },
        StmtModel::Break => if g.loop_end_labels.len() == 0 {
            GRes::Fail(CodegenErrorModel::NoLoopLabel)
        } else {
            GRes::Emitted {
                v: "    jmp "@ + g.loop_end_labels.last() + " ; break\n"@,
                st: g,
            }
        },
        StmtModel::FnSemantics(_) => GRes::Fail(CodegenErrorModel::Unimplemented),
        StmtModel::Return(_) => GRes::Fail(CodegenErrorModel::UnexpectedStatement),
        StmtModel::VarDecl { .. } => GRes::Fail(CodegenErrorModel::UnexpectedStatement),
        StmtModel::FnDecl { .. } => GRes::Fail(CodegenErrorModel::UnexpectedStatement),
    }
}

/// A scope lowered: its statements in order, its variables popped and
/// their frame bytes given back, and, where the scope reserved any bytes,
/// one stack-pointer adjustment prefixed to its text.
pub open spec fn spec_gen_scope(g: GenModel, sc: ScopeModel) -> GRes<Seq<char>>
    decreases sc, 0int,
{
    let n0 = g.stack.len() as int;
    match spec_gen_stmt_list(g, sc.stmts) {
        GRes::Fail(er) => GRes::Fail(er),
        GRes::Emitted { v: body, st: g2 } => if g2.stack.len() < n0 {
            GRes::Fail(CodegenErrorModel::Internal)
        } else {
            let popped = g2.stack.skip(n0);
            let alloc = sum_widths(popped);
            if alloc > g2.stk_pos {
                GRes::Fail(CodegenErrorModel::Internal)
            } else {
                GRes::Emitted {
                    v: if alloc > 0 {
                        "    sub rsp, "@ + dec_str(alloc as nat) + "\n"@ + body
                    } else {
                        body
                    },
                    st: GenModel {
                        stk_pos: g2.stk_pos - alloc,
                        stack: g2.stack.take(n0),
                        ..g2
                    },
                }
            }
        },
    }
}

/// A statement list lowered in order, the state threading through.
pub open spec fn spec_gen_stmt_list(g: GenModel, l: Seq<StmtModel>) -> GRes<Seq<char>>
    decreases l, 2int,
{
    if l.len() == 0 {
        GRes::Emitted { v: Seq::empty(), st: g }
    } else {
        match spec_gen_stmt(g, l[0]) {
            GRes::Fail(er) => GRes::Fail(er),
            GRes::Emitted { v: first, st: g1 } => match spec_gen_stmt_list(g1, l.drop_first()) {
                GRes::Fail(er) => GRes::Fail(er),
                GRes::Emitted { v: rest, st: g2 } => GRes::Emitted { v: first + rest, st: g2 },
            },
        }
    }
}

/// A top-level statement lowered; function bodies are a designed-for
/// extension point and are refused as unimplemented.
pub open spec fn spec_gen_top_level(g: GenModel, s: StmtModel) -> GRes<Seq<char>>
    decreases s, 1int,
{
    match s {
        StmtModel::FnSemantics(_) => GRes::Fail(CodegenErrorModel::Unimplemented),
        _ => spec_gen_stmt(g, s),
    }
}

/// The program's statements lowered in order.
pub open spec fn spec_gen_prog(g: GenModel, l: Seq<StmtModel>) -> GRes<Seq<char>>
    decreases l, 3int,
{
    if l.len() == 0 {
        GRes::Emitted { v: Seq::empty(), st: g }
    } else {
        match spec_gen_top_level(g, l[0]) {
            GRes::Fail(er) => GRes::Fail(er),
            GRes::Emitted { v: first, st: g1 } => match spec_gen_prog(g1, l.drop_first()) {
                GRes::Fail(er) => GRes::Fail(er),
                GRes::Emitted { v: rest, st: g2 } => GRes::Emitted { v: first + rest, st: g2 },
            },
        }
    }
}

/// The whole assembly unit: the global entry-point declaration, then the
/// lowered statements.
pub open spec fn spec_gen_asm(g: GenModel, l: Seq<StmtModel>) -> Result<
    Seq<char>,
    CodegenErrorModel,
> {
    match spec_gen_prog(g, l) {
        GRes::Fail(er) => Err(er),
        GRes::Emitted { v, .. } => Ok("global main\n"@ + v),
    }
}

// ---------------------------------------------------------------------------
// The generator
// ---------------------------------------------------------------------------

/// A live variable in the generator's shadow stack: its name, width,
/// type, and byte offset from the frame base.
#[derive(Debug, PartialEq)]
pub struct GenVariable {
    pub ident: Token,
    pub width: usize,
    pub type_id: usize,
    pub stk_index: u64,
}

/// The model of a generator variable.
pub open spec fn gen_variable_model(v: GenVariable) -> GenVariableModel {
    GenVariableModel {
        ident: v.ident@,
        width: v.width,
        type_id: v.type_id,
        stk_index: v.stk_index,
    }
}

impl View for GenVariable {
    type V = GenVariableModel;

    open spec fn view(&self) -> GenVariableModel {
        gen_variable_model(*self)
    }
}

impl DeepView for GenVariable {
    type V = GenVariableModel;

    open spec fn deep_view(&self) -> GenVariableModel {
        gen_variable_model(*self)
    }
}

/// The code generator's working state.
pub struct Generator {
    pub stk_pos: u64,
    pub reg_count: usize,
    pub label_count: u64,
    pub endif_labels: Vec<String>,
    pub loop_end_labels: Vec<String>,
    pub stack: Vec<GenVariable>,
    pub ast: AST,
}

/// The abstract state of a generator; the tree it consumes stands apart.
pub open spec fn gen_state(g: Generator) -> GenModel {
    GenModel {
        stk_pos: g.stk_pos as int,
        reg_count: g.reg_count as int,
        label_count: g.label_count as int,
        endif_labels: g.endif_labels.deep_view(),
        loop_end_labels: g.loop_end_labels.deep_view(),
        stack: g.stack.deep_view(),
    }
}

/// The model of an optional destination operand.
pub open spec fn opt_str_model(o: Option<&str>) -> Option<Seq<char>> {
    match o {
        Some(a) => Some(a@),
        None => None,
    }
}

fn dec_digit_char(d: u64) -> (c: char)
    requires
        d < 10,
    ensures
        c == dec_digit(d as int),
{
    match d {
        0 => '0',
        1 => '1',
        2 => '2',
        3 => '3',
        4 => '4',
        5 => '5',
        6 => '6',
        7 => '7',
        8 => '8',
        _ => '9',
    }
}

fn hex_digit_char(d: u64) -> (c: char)
    requires
        d < 16,
    ensures
        c == hex_digit(d as int),
{
    match d {
        0 => '0',
        1 => '1',
        2 => '2',
        3 => '3',
        4 => '4',
        5 => '5',
        6 => '6',
        7 => '7',
        8 => '8',
        9 => '9',
        10 => 'A',
        11 => 'B',
        12 => 'C',
        13 => 'D',
        14 => 'E',
        _ => 'F',
    }
}

/// Appends the decimal spelling of `n`.
fn push_dec(s: &mut String, n: u64)
    ensures
        final(s)@ == old(s)@ + dec_str(n as nat),
    decreases n,
{
    if n < 10 {
        push_char(s, dec_digit_char(n));
        proof {
            assert(old(s)@.push(dec_digit(n as int)) =~= old(s)@ + dec_str(n as nat));
        }
    } else {
        push_dec(s, n / 10);
        push_char(s, dec_digit_char(n % 10));
        proof {
            assert((old(s)@ + dec_str((n / 10) as nat)).push(dec_digit((n % 10) as int)) =~= old(
                s,
            )@ + dec_str(n as nat));
        }
    }
}

/// Appends the uppercase hexadecimal spelling of `n`.
fn push_hex(s: &mut String, n: u64)
    ensures
        final(s)@ == old(s)@ + hex_str(n as nat),
    decreases n,
{
    if n < 16 {
        push_char(s, hex_digit_char(n));
        proof {
            assert(old(s)@.push(hex_digit(n as int)) =~= old(s)@ + hex_str(n as nat));
        }
    } else {
        push_hex(s, n / 16);
        push_char(s, hex_digit_char(n % 16));
        proof {
            assert((old(s)@ + hex_str((n / 16) as nat)).push(hex_digit((n % 16) as int)) =~= old(
                s,
            )@ + hex_str(n as nat));
        }
    }
}

/// A frame-base-relative operand without a size prefix.
fn gen_var_access(stk_index: u64) -> (r: String)
    ensures
        r@ == var_access_text(stk_index as nat),
{
    let mut s = String::from_str("[rbp-");
    push_dec(&mut s, stk_index);
    s.append("]");
    s
}

/// A frame-base-relative operand with its size prefix.
fn gen_stk_access(width: usize, stk_index: u64) -> (r: Result<String, CodegenError>)
    ensures
        match r {
            Ok(s) => stk_access_text(width as int, stk_index as nat) == Ok::<
                Seq<char>,
                CodegenErrorModel,
            >(s@),
            Err(e) => stk_access_text(width as int, stk_index as nat) == Err::<
                Seq<char>,
                CodegenErrorModel,
            >(e@),
        },
{
    let prefix: &'static str = if width == 1 {
        "byte"
    } else if width == 2 {
        "word"
    } else if width == 4 {
        "dword"
    } else if width == 8 {
        "qword"
    } else {
        return Err(CodegenError::InvalidWidth { width });
    };
    let mut s = String::from_str(prefix);
    s.append(" [rbp-");
    push_dec(&mut s, stk_index);
    s.append("]");
    Ok(s)
}

/// The most recently declared of the first `k` live variables with this
/// name.
fn find_gen_var(stack: &Vec<GenVariable>, k: usize, name: &String) -> (r: Option<usize>)
    requires
        k <= stack@.len(),
    ensures
        match r {
            Some(i) => i < k && lookup_gen_var(stack.deep_view().take(k as int), name@) == Some(
                i as int,
            ),
            None => lookup_gen_var(stack.deep_view().take(k as int), name@) is None,
        },
    decreases k,
{
    if k == 0 {
        None
    } else {
        proof {
            assert(stack.deep_view().take(k as int).drop_last() =~= stack.deep_view().take(
                k - 1 as int,
            ));
            assert(stack.deep_view().take(k as int).last() == stack@[k - 1 as int].deep_view());
        }
        let matched = match stack[k - 1].ident.value {
            Some(ref s) => *s == *name,
            None => false,
        };
        if matched {
            Some(k - 1)
        } else {
            find_gen_var(stack, k - 1, name)
        }
    }
}

impl Generator {
    /// A generator over the checker's output, with an empty frame, a free
    /// register pool, and no pending labels.
    pub fn new(data: HandoffData) -> (r: Generator)
        ensures
            r.ast == data.ast,
            gen_state(r).stk_pos == 0,
            gen_state(r).reg_count == 0,
            gen_state(r).label_count == 0,
            gen_state(r).endif_labels =~= Seq::<Seq<char>>::empty(),
            gen_state(r).loop_end_labels =~= Seq::<Seq<char>>::empty(),
            gen_state(r).stack =~= Seq::<GenVariableModel>::empty(),
    {
        Generator {
            stk_pos: 0,
            reg_count: 0,
            label_count: 0,
            endif_labels: Vec::new(),
            loop_end_labels: Vec::new(),
            stack: Vec::new(),
            ast: data.ast,
        }
    }

    /// The register at pool slot `index`, counted from one; see
    /// [`spec_get_reg`].
    fn get_reg(&self, index: usize) -> (r: Result<&'static str, CodegenError>)
        ensures
            match r {
                Ok(s) => spec_get_reg(index as int) == Ok::<Seq<char>, CodegenErrorModel>(s@),
                Err(e) => spec_get_reg(index as int) == Err::<Seq<char>, CodegenErrorModel>(e@),
            },
    {
        if index == 0 {
            Err(CodegenError::Internal)
        } else if index > 8 {
            Err(CodegenError::OutOfRegisters)
        } else if index == 1 {
            Ok("rax")
        } else if index == 2 {
            Ok("rcx")
        } else if index == 3 {
            Ok("rsi")
        } else if index == 4 {
            Ok("rdi")
        } else if index == 5 {
            Ok("r8")
        } else if index == 6 {
            Ok("r9")
        } else if index == 7 {
            Ok("r10")
        } else {
            Ok("r11")
        }
    }

    /// Claims the next free scratch register; see [`spec_next_reg`].
    fn next_reg(&mut self) -> (r: Result<&'static str, CodegenError>)
        ensures
            final(self).ast == old(self).ast,
            match r {
                Ok(s) => spec_next_reg(gen_state(*old(self))) == (GRes::Emitted {
                    v: s@,
                    st: gen_state(*final(self)),
                }),
                Err(e) => spec_next_reg(gen_state(*old(self))) == GRes::Fail::<Seq<char>>(e@)
                    && *final(self) == *old(self),
            },
    {
        if self.reg_count >= 8 {
            return Err(CodegenError::OutOfRegisters);
        }
        let name: &'static str = if self.reg_count == 0 {
            "rax"
        } else if self.reg_count == 1 {
            "rcx"
        } else if self.reg_count == 2 {
            "rsi"
        } else if self.reg_count == 3 {
            "rdi"
        } else if self.reg_count == 4 {
            "r8"
        } else if self.reg_count == 5 {
            "r9"
        } else if self.reg_count == 6 {
            "r10"
        } else {
            "r11"
        };
        self.reg_count = self.reg_count + 1;
        Ok(name)
    }

    /// Releases the most recently claimed register; see
    /// [`spec_release_reg`].
    fn release_reg(&mut self) -> (r: Result<(), CodegenError>)
        ensures
            final(self).ast == old(self).ast,
            match r {
                Ok(_) => gen_state(*old(self)).reg_count > 0 && gen_state(*final(self))
                    == (GenModel {
                    reg_count: gen_state(*old(self)).reg_count - 1,
                    ..gen_state(*old(self))
                }),
                Err(e) => gen_state(*old(self)).reg_count <= 0 && e@
                    == CodegenErrorModel::Internal && *final(self) == *old(self),
            },
    {
        if self.reg_count == 0 {
            return Err(CodegenError::Internal);
        }
        self.reg_count = self.reg_count - 1;
        Ok(())
    }

    /// A fresh label for this construct; see [`spec_gen_label`].
    fn gen_label(&mut self, name: &str) -> (r: Result<String, CodegenError>)
        ensures
            final(self).ast == old(self).ast,
            match r {
                Ok(s) => spec_gen_label(gen_state(*old(self)), name@) == (GRes::Emitted {
                    v: s@,
                    st: gen_state(*final(self)),
                }),
                Err(e) => spec_gen_label(gen_state(*old(self)), name@) == GRes::Fail::<Seq<char>>(
                    e@,
                ) && *final(self) == *old(self),
            },
    {
        if self.label_count == u64::MAX {
            return Err(CodegenError::TooManyLabels);
        }
        self.label_count = self.label_count + 1;
        let mut s = String::new();
        push_char(&mut s, '.');
        proof {
            assert(Seq::<char>::empty().push('.') =~= seq!['.']);
        }
        push_hex(&mut s, self.label_count);
        push_char(&mut s, '_');
        s.append(name);
        proof {
            assert(((seq!['.'] + hex_str(self.label_count as nat)).push('_')) =~= seq!['.']
                + hex_str(self.label_count as nat) + seq!['_']);
        }
        Ok(s)
    }

    /// The condition-code suffix of a comparison; see
    /// [`cmp_modifier_of`].
    fn gen_cmp_modifier(&self, op: TokenKind) -> (r: Result<&'static str, CodegenError>)
        ensures
            match r {
                Ok(s) => cmp_modifier_of(op) == Some(s@),
                Err(e) => cmp_modifier_of(op) is None && e@ == CodegenErrorModel::Internal,
            },
    {
        if op == TokenKind::CmpEq {
            Ok("e")
        } else if op == TokenKind::NotEq {
            Ok("ne")
        } else if op == TokenKind::Gt {
            Ok("g")
        } else if op == TokenKind::GtEq {
            Ok("ge")
        } else if op == TokenKind::Lt {
            Ok("l")
        } else if op == TokenKind::LtEq {
            Ok("le")
        } else {
            Err(CodegenError::Internal)
        }
    }

    /// The arithmetic operation over the two topmost registers; see
    /// [`spec_gen_arithmetic`].
    fn gen_arithmetic(&self, op: TokenKind) -> (r: Result<String, CodegenError>)
        ensures
            match r {
                Ok(s) => spec_gen_arithmetic(gen_state(*self), op) == Ok::<
                    Seq<char>,
                    CodegenErrorModel,
                >(s@),
                Err(e) => spec_gen_arithmetic(gen_state(*self), op) == Err::<
                    Seq<char>,
                    CodegenErrorModel,
                >(e@),
            },
    {
        if self.reg_count < 1 {
            return Err(CodegenError::Internal);
        }
        let reg1 = self.get_reg(self.reg_count - 1)?;
        let reg2 = self.get_reg(self.reg_count)?;
        if op == TokenKind::Add {
            let mut s = String::from_str("    add ");
            s.append(reg1);
            s.append(", ");
            s.append(reg2);
            s.append("\n");
            Ok(s)
        } else if op == TokenKind::Sub {
            let mut s = String::from_str("    sub ");
            s.append(reg1);
            s.append(", ");
            s.append(reg2);
            s.append("\n");
            Ok(s)
        } else if op == TokenKind::Mul {
            let mut s = String::from_str("    imul ");
            s.append(reg1);
            s.append(", ");
            s.append(reg2);
            s.append("\n");
            Ok(s)
        } else if op == TokenKind::Quo {
            let mut s = String::from_str("    cqo\n    idiv ");
            s.append(reg2);
            s.append("\n");
            Ok(s)
        } else if op == TokenKind::Mod {
            let mut s = String::from_str("    cqo\n    idiv ");
            s.append(reg2);
            s.append("\n    mov ");
            s.append(reg1);
            s.append(", rdx\n");
            Ok(s)
        } else {
            Err(CodegenError::Internal)
        }
    }

    /// The bitwise operation over the two topmost registers; see
    /// [`spec_gen_bitwise`].
    fn gen_bitwise(&self, op: TokenKind) -> (r: Result<String, CodegenError>)
        ensures
            match r {
                Ok(s) => spec_gen_bitwise(gen_state(*self), op) == Ok::<
                    Seq<char>,
                    CodegenErrorModel,
                >(s@),
                Err(e) => spec_gen_bitwise(gen_state(*self), op) == Err::<
                    Seq<char>,
                    CodegenErrorModel,
                >(e@),
            },
    {
        if self.reg_count < 1 {
            return Err(CodegenError::Internal);
        }
        let reg1 = self.get_reg(self.reg_count - 1)?;
        let reg2 = self.get_reg(self.reg_count)?;
        let mnemonic: &'static str = if op == TokenKind::Bar {
            "or"
        } else if op == TokenKind::Tilde {
            "xor"
        } else if op == TokenKind::Ampersand {
            "and"
        } else if op == TokenKind::Shl {
            "sal"
        } else if op == TokenKind::Shr {
            "sar"
        } else {
            return Err(CodegenError::Internal);
        };
        let mut s = String::from_str("    ");
        s.append(mnemonic);
        s.append(" ");
        s.append(reg1);
        s.append(", ");
        s.append(reg2);
        s.append("\n");
        Ok(s)
    }

    /// The comparison over the two topmost registers; see
    /// [`spec_gen_comparison`].
    fn gen_comparison(&self, op: TokenKind) -> (r: Result<String, CodegenError>)
        ensures
            match r {
                Ok(s) => spec_gen_comparison(gen_state(*self), op) == Ok::<
                    Seq<char>,
                    CodegenErrorModel,
                >(s@),
                Err(e) => spec_gen_comparison(gen_state(*self), op) == Err::<
                    Seq<char>,
                    CodegenErrorModel,
                >(e@),
            },
    {
        if self.reg_count < 1 {
            return Err(CodegenError::Internal);
        }
        let reg1 = self.get_reg(self.reg_count - 1)?;
        let reg2 = self.get_reg(self.reg_count)?;
        let m = self.gen_cmp_modifier(op)?;
        let mut s = String::from_str("    cmp ");
        s.append(reg1);
        s.append(", ");
        s.append(reg2);
        s.append("\n    set");
        s.append(m);
        s.append(" al\n    movzx ");
        s.append(reg1);
        s.append(", al\n");
        Ok(s)
    }

    /// The short-circuiting lowering of a logical operator; see
    /// [`spec_gen_logical`].
    fn gen_logical(&mut self, op: TokenKind, lhs_asm: &str, rhs_asm: &str) -> (r: Result<
        String,
        CodegenError,
    >)
        ensures
            final(self).ast == old(self).ast,
            match r {
                Ok(s) => spec_gen_logical(gen_state(*old(self)), op, lhs_asm@, rhs_asm@) == (
                GRes::Emitted { v: s@, st: gen_state(*final(self)) }),
                Err(e) => spec_gen_logical(gen_state(*old(self)), op, lhs_asm@, rhs_asm@)
                    == GRes::Fail::<Seq<char>>(e@),
            },
    {
        if self.reg_count < 1 {
            return Err(CodegenError::Internal);
        }
        let reg1 = self.get_reg(self.reg_count - 1)?;
        let reg2 = self.get_reg(self.reg_count)?;
        if op == TokenKind::CmpAnd {
            let false_label = self.gen_label("AND_FALSE")?;
            let end_label = self.gen_label("AND_END")?;
            let mut s = String::from_str("; LogicalAnd\n");
            s.append(lhs_asm);
            s.append("    cmp ");
            s.append(reg1);
            s.append(", 0\n    je ");
            s.append(false_label.as_str());
            s.append("\n");
            s.append(rhs_asm);
            s.append("    cmp ");
            s.append(reg2);
            s.append(", 0\n    je ");
            s.append(false_label.as_str());
            s.append("\n    mov ");
            s.append(reg1);
            s.append(", 1\n    jmp ");
            s.append(end_label.as_str());
            s.append("\n");
            s.append(false_label.as_str());
            s.append(":\n    mov ");
            s.append(reg1);
            s.append(", 0\n");
            s.append(end_label.as_str());
            s.append(":\n");
            Ok(s)
        } else if op == TokenKind::CmpOr {
            let true_label = self.gen_label("OR_TRUE")?;
            let end_label = self.gen_label("OR_END")?;
            let mut s = String::from_str("; CmpOr\n");
            s.append(lhs_asm);
            s.append("    cmp ");
            s.append(reg1);
            s.append(", 0\n    jne ");
            s.append(true_label.as_str());
            s.append("\n");
            s.append(rhs_asm);
            s.append("    cmp ");
            s.append(reg2);
            s.append(", 0\n    jne ");
            s.append(true_label.as_str());
            s.append("\n    mov ");
            s.append(reg1);
            s.append(", 0\n    jmp ");
            s.append(end_label.as_str());
            s.append("\n");
            s.append(true_label.as_str());
            s.append(":\n    mov ");
            s.append(reg1);
            s.append(", 1\n");
            s.append(end_label.as_str());
            s.append(":\n");
            Ok(s)
        } else {
            Err(CodegenError::Internal)
        }
    }

    /// Moves an expression result into its destination, where one was
    /// supplied; see [`spec_ans_tail`].
    fn ans_tail(&mut self, body: String, ans: Option<&str>) -> (r: Result<String, CodegenError>)
        ensures
            final(self).ast == old(self).ast,
            match r {
                Ok(s) => spec_ans_tail(gen_state(*old(self)), body@, opt_str_model(ans)) == (
                GRes::Emitted { v: s@, st: gen_state(*final(self)) }),
                Err(e) => spec_ans_tail(gen_state(*old(self)), body@, opt_str_model(ans))
                    == GRes::Fail::<Seq<char>>(e@),
            },
    {
        match ans {
            None => Ok(body),
            Some(a) => {
                let reg = self.get_reg(self.reg_count)?;
                match self.release_reg() {
                    Ok(_) => (),
                    Err(e) => {
                        return Err(e);
                    },
                }
                let mut s = body;
                s.append("    mov ");
                s.append(a);
                s.append(", ");
                s.append(reg);
                s.append("\n");
                Ok(s)
            },
        }
    }

    /// A literal or variable read lowered; see [`spec_gen_term`].
    fn gen_term(&mut self, term: &NodeTerm, ans: Option<&str>) -> (r: Result<String, CodegenError>)
        ensures
            final(self).ast == old(self).ast,
            match r {
                Ok(s) => spec_gen_term(gen_state(*old(self)), term@, opt_str_model(ans)) == (
                GRes::Emitted { v: s@, st: gen_state(*final(self)) }),
                Err(e) => spec_gen_term(gen_state(*old(self)), term@, opt_str_model(ans))
                    == GRes::Fail::<Seq<char>>(e@),
            },
    {
        match term {
            NodeTerm::IntLit(tok) => match tok.value {
                None => Err(CodegenError::MissingValue),
                Some(ref text) => {
                    let mut s = String::from_str("    mov ");
                    match ans {
                        Some(a) => {
                            s.append(a);
                        },
                        None => {
                            let reg = self.next_reg()?;
                            s.append(reg);
                        },
                    }
                    s.append(", ");
                    s.append(text.as_str());
                    s.append("\n");
                    Ok(s)
                },
            },
            NodeTerm::Ident(tok) => match tok.value {
                None => Err(CodegenError::MissingValue),
                Some(ref name) => {
                    proof {
                        assert(self.stack.deep_view().take(self.stack@.len() as int)
                            =~= self.stack.deep_view());
                    }
                    match find_gen_var(&self.stack, self.stack.len(), name) {
                        None => Err(CodegenError::UnknownVariable { ident: tok.clone() }),
                        Some(i) => {
                            let access = gen_var_access(self.stack[i].stk_index);
                            let mut s = String::from_str("    mov ");
                            match ans {
                                Some(a) => {
                                    s.append(a);
                                },
                                None => {
                                    let reg = self.next_reg()?;
                                    s.append(reg);
                                },
                            }
                            s.append(", ");
                            s.append(access.as_str());
                            s.append("\n");
                            Ok(s)
                        },
                    }
                },
            },
        }
    }

    /// An expression lowered; see [`spec_gen_expr`].
    #[verifier::rlimit(100)]
    fn gen_expr(&mut self, expr: &NodeExpr, ans: Option<&str>) -> (r: Result<String, CodegenError>)
        ensures
            final(self).ast == old(self).ast,
            match r {
                Ok(s) => spec_gen_expr(gen_state(*old(self)), expr@, opt_str_model(ans)) == (
                GRes::Emitted { v: s@, st: gen_state(*final(self)) }),
                Err(e) => spec_gen_expr(gen_state(*old(self)), expr@, opt_str_model(ans))
                    == GRes::Fail::<Seq<char>>(e@),
            },
        decreases *expr,
    {
        match expr {
            NodeExpr::Term(t) => self.gen_term(t, ans),
            NodeExpr::BinaryExpr { op, lhs, rhs } => {
                let lhs_asm = self.gen_expr(lhs, None)?;
                let rhs_asm = self.gen_expr(rhs, None)?;
                let fl = op.get_flags();
                let core: String = if fl.log {
                    self.gen_logical(*op, lhs_asm.as_str(), rhs_asm.as_str())?
                } else {
                    let op_asm: String = if fl.cmp {
                        self.gen_comparison(*op)?
                    } else if fl.bit {
                        self.gen_bitwise(*op)?
                    } else if fl.arith {
                        self.gen_arithmetic(*op)?
                    } else {
                        return Err(CodegenError::Internal);
                    };
                    let mut s = lhs_asm;
                    s.append(rhs_asm.as_str());
                    s.append(op_asm.as_str());
                    s
                };
                match self.release_reg() {
                    Ok(_) => (),
                    Err(e) => {
                        return Err(e);
                    },
                }
                self.ans_tail(core, ans)
            },
            NodeExpr::UnaryExpr { op, operand } => {
                let operand_asm = self.gen_expr(operand, None)?;
                let reg = self.get_reg(self.reg_count)?;
                let op_asm: String = if *op == TokenKind::Tilde {
                    let mut s = String::from_str("    not ");
                    s.append(reg);
                    s.append("\n");
                    s
                } else if *op == TokenKind::Sub {
                    let mut s = String::from_str("    neg ");
                    s.append(reg);
                    s.append("\n");
                    s
                } else if *op == TokenKind::CmpNot {
                    let mut s = String::from_str("    test ");
                    s.append(reg);
                    s.append(", ");
                    s.append(reg);
                    s.append("\n    sete al\n    movzx ");
                    s.append(reg);
                    s.append(", al\n");
                    s
                } else if *op == TokenKind::Ampersand {
                    match &**operand {
                        NodeExpr::Term(NodeTerm::Ident(tok)) => match tok.value {
                            None => {
                                return Err(CodegenError::MissingValue);
                            },
                            Some(ref name) => {
                                proof {
                                    assert(self.stack.deep_view().take(self.stack@.len() as int)
                                        =~= self.stack.deep_view());
                                }
                                match find_gen_var(&self.stack, self.stack.len(), name) {
                                    None => {
                                        return Err(
                                            CodegenError::UnknownVariable { ident: tok.clone() },
                                        );
                                    },
                                    Some(i) => {
                                        let access = gen_var_access(self.stack[i].stk_index);
                                        let mut s = String::from_str("    lea ");
                                        s.append(reg);
                                        s.append(", ");
                                        s.append(access.as_str());
                                        s.append("\n");
                                        s
                                    },
                                }
                            },
                        },
                        _ => {
                            return Err(CodegenError::Internal);
                        },
                    }
                } else if *op == TokenKind::Ptr {
                    let mut s = String::from_str("    mov ");
                    s.append(reg);
                    s.append(", [");
                    s.append(reg);
                    s.append("]\n");
                    s
                } else {
                    return Err(CodegenError::Internal);
                };
                let mut body = operand_asm;
                body.append(op_asm.as_str());
                self.ans_tail(body, ans)
            },
        }
    }

    /// One statement lowered; see [`spec_gen_stmt`].
    #[verifier::rlimit(100)]
    #[verifier::spinoff_prover]
    fn gen_stmt(&mut self, stmt: NodeStmt) -> (r: Result<String, CodegenError>)
        ensures
            final(self).ast == old(self).ast,
            match r {
                Ok(s) => spec_gen_stmt(gen_state(*old(self)), stmt@) == (GRes::Emitted {
                    v: s@,
                    st: gen_state(*final(self)),
                }),
                Err(e) => spec_gen_stmt(gen_state(*old(self)), stmt@) == GRes::Fail::<Seq<char>>(
                    e@,
                ),
            },
        decreases stmt, 0int,
    {
        match stmt {
            NodeStmt::NakedScope(sc) => self.gen_scope(sc),
            NodeStmt::Exit(e) => {
                let expr_asm = self.gen_expr(&e, Some("rdi"))?;
                let mut s = String::from_str("; Exit Program\n");
                s.append(expr_asm.as_str());
                s.append("    mov rax, 60\n    syscall\n");
                Ok(s)
            },
            NodeStmt::VarSemantics(sem_var) => {
                let SemVariable { width, mutable: _, ident, type_id, addr_mode: _, init_expr } =
                    sem_var;
                let dup: bool = match ident.value {
                    None => {
                        return Err(CodegenError::MissingValue);
                    },
                    Some(ref name) => {
                        proof {
                            assert(self.stack.deep_view().take(self.stack@.len() as int)
                                =~= self.stack.deep_view());
                        }
                        find_gen_var(&self.stack, self.stack.len(), name).is_some()
                    },
                };
                if dup {
                    return Err(CodegenError::Redeclaration { ident });
                }
                let w64 = width as u64;
                if self.stk_pos > u64::MAX - w64 {
                    return Err(CodegenError::FrameOverflow);
                }
                let stk_index = self.stk_pos + w64;
                let ghost stack0 = self.stack.deep_view();
                let ghost identm = ident@;
                self.stack.push(GenVariable { ident, width, type_id, stk_index });
                proof {
                    assert(self.stack.deep_view() =~= stack0.push(
                        GenVariableModel { ident: identm, width, type_id, stk_index },
                    ));
                }
                self.stk_pos = stk_index;
                match init_expr {
                    None => Ok(String::new()),
                    Some(e) => {
                        let access = gen_stk_access(width, stk_index)?;
                        self.gen_expr(&e, Some(access.as_str()))
                    },
                }
            },
            NodeStmt::Assign { ident, expr } => {
                let i: usize = match ident.value {
                    None => {
                        return Err(CodegenError::MissingValue);
                    },
                    Some(ref name) => {
                        proof {
                            assert(self.stack.deep_view().take(self.stack@.len() as int)
                                =~= self.stack.deep_view());
                        }
                        match find_gen_var(&self.stack, self.stack.len(), name) {
                            None => {
                                return Err(CodegenError::UnknownVariable { ident: ident.clone() });
                            },
                            Some(i) => i,
                        }
                    },
                };
                let access = gen_stk_access(self.stack[i].width, self.stack[i].stk_index)?;
                self.gen_expr(&expr, Some(access.as_str()))
            },
            NodeStmt::If { condition, scope, branches } => {
                let has_branches = branches.len() > 0;
                let ghost branches_m = stmts_model(branches@);
                let mut endif_jmp = String::new();
                let mut endif_goto = String::new();
                if has_branches {
                    let endif = self.gen_label("END_IF")?;
                    endif_jmp.append("    jmp ");
                    endif_jmp.append(endif.as_str());
                    endif_jmp.append("\n");
                    endif_goto.append(endif.as_str());
                    endif_goto.append(":\n");
                    let ghost e0 = self.endif_labels.deep_view();
                    let ghost endifm = endif@;
                    self.endif_labels.push(endif);
                    proof {
                        assert(self.endif_labels.deep_view() =~= e0.push(endifm));
                        assert(Seq::<char>::empty() + "    jmp "@ =~= "    jmp "@);
                        assert(Seq::<char>::empty() + endifm =~= endifm);
                    }
                }
                let false_label = self.gen_label("IF_FALSE")?;
                let cond_asm = self.gen_expr(&condition, None)?;
                let reg = self.get_reg(self.reg_count)?;
                match self.release_reg() {
                    Ok(_) => (),
                    Err(e) => {
                        return Err(e);
                    },
                }
                let scope_asm = self.gen_scope(scope)?;
                let branches_asm = self.gen_stmts(branches)?;
                if has_branches {
                    if self.endif_labels.len() == 0 {
                        return Err(CodegenError::Internal);
                    }
                    let ghost e1 = self.endif_labels.deep_view();
                    let _dropped = self.endif_labels.pop();
                    proof {
                        assert(self.endif_labels.deep_view() =~= e1.drop_last());
                    }
                }
                let mut s = String::from_str("; If\n");
                s.append(cond_asm.as_str());
                s.append("    cmp ");
                s.append(reg);
                s.append(", 0\n    je ");
                s.append(false_label.as_str());
                s.append("\n");
                s.append(scope_asm.as_str());
                s.append(endif_jmp.as_str());
                s.append(false_label.as_str());
                s.append(":\n");
                s.append(branches_asm.as_str());
                s.append(endif_goto.as_str());
                Ok(s)
            },
            NodeStmt::ElseIf { condition, scope } => {
                let false_label = self.gen_label("ELIF_FALSE")?;
                let scope_asm = self.gen_scope(scope)?;
                let cond_asm = self.gen_expr(&condition, None)?;
                let reg = self.get_reg(self.reg_count)?;
                match self.release_reg() {
                    Ok(_) => (),
                    Err(e) => {
                        return Err(e);
                    },
                }
                if self.endif_labels.len() == 0 {
                    return Err(CodegenError::NoEndifLabel);
                }
                let endif = &self.endif_labels[self.endif_labels.len() - 1];
                let mut s = cond_asm;
                s.append("    cmp ");
                s.append(reg);
                s.append(", 0\n    je ");
                s.append(false_label.as_str());
                s.append("\n");
                s.append(scope_asm.as_str());
                s.append("    jmp ");
                s.append(endif.as_str());
                s.append("\n");
                s.append(false_label.as_str());
                s.append(":\n");
                Ok(s)
            },
            NodeStmt::Else(sc) => {
                let scope_asm = self.gen_scope(sc)?;
                let mut s = String::from_str("; Else\n");
                s.append(scope_asm.as_str());
                Ok(s)
            },
            NodeStmt::While { condition, scope } => {
                let cmp_label = self.gen_label("WHILE_CMP")?;
                let scope_label = self.gen_label("WHILE_SCOPE")?;
                let end_label = self.gen_label("WHILE_END")?;
                let ghost l0 = self.loop_end_labels.deep_view();
                let ghost endm = end_label@;
                self.loop_end_labels.push(end_label.clone());
                proof {
                    assert(self.loop_end_labels.deep_view() =~= l0.push(endm));
                }
                let scope_asm = self.gen_scope(scope)?;
                let cond_asm = self.gen_expr(&condition, None)?;
                let reg = self.get_reg(self.reg_count)?;
                match self.release_reg() {
                    Ok(_) => (),
                    Err(e) => {
                        return Err(e);
                    },
                }
                if self.loop_end_labels.len() == 0 {
                    return Err(CodegenError::Internal);
                }
                let ghost l1 = self.loop_end_labels.deep_view();
                let _dropped = self.loop_end_labels.pop();
                proof {
                    assert(self.loop_end_labels.deep_view() =~= l1.drop_last());
                }
                let mut s = String::from_str("; While\n    jmp ");
                s.append(cmp_label.as_str());
                s.append("\n");
                s.append(scope_label.as_str());
                s.append(":\n");
                s.append(scope_asm.as_str());
                s.append(cmp_label.as_str());
                s.append(":\n");
                s.append(cond_asm.as_str());
                s.append("    cmp ");
                s.append(reg);
                s.append(", 0\n    jne ");
                s.append(scope_label.as_str());
                s.append("\n");
                s.append(end_label.as_str());
                s.append(":\n");
                Ok(s)
            },
            NodeStmt::Break => {
                if self.loop_end_labels.len() == 0 {
                    return Err(CodegenError::NoLoopLabel);
                }
                let label = &self.loop_end_labels[self.loop_end_labels.len() - 1];
                let mut s = String::from_str("    jmp ");
                s.append(label.as_str());
                s.append(" ; break\n");
                Ok(s)
            },
            NodeStmt::FnSemantics(_) => Err(CodegenError::Unimplemented),
            NodeStmt::Return(_) => Err(CodegenError::UnexpectedStatement),
            NodeStmt::VarDecl { .. } => Err(CodegenError::UnexpectedStatement),
            NodeStmt::FnDecl { .. } => Err(CodegenError::UnexpectedStatement),
        }
    }

    /// A scope lowered, its variables popped and their bytes given back;
    /// see [`spec_gen_scope`].
    #[verifier::rlimit(100)]
    #[verifier::spinoff_prover]
    #[verifier::loop_isolation(false)]
    fn gen_scope(&mut self, scope: NodeScope) -> (r: Result<String, CodegenError>)
        ensures
            final(self).ast == old(self).ast,
            match r {
                Ok(s) => spec_gen_scope(gen_state(*old(self)), scope@) == (GRes::Emitted {
                    v: s@,
                    st: gen_state(*final(self)),
                }),
                Err(e) => spec_gen_scope(gen_state(*old(self)), scope@) == GRes::Fail::<Seq<char>>(
                    e@,
                ),
            },
        decreases scope, 0int,
    {
        let n0 = self.stack.len();
        let NodeScope { stmts, inherits_stmts: _ } = scope;
        let body = self.gen_stmts(stmts)?;
        if self.stack.len() < n0 {
            return Err(CodegenError::Internal);
        }
        let ghost gmid = gen_state(*self);
        let ghost ast_mid = self.ast;
        let stk_mid = self.stk_pos;
        proof {
            lemma_sum_widths_nonneg(gmid.stack.skip(n0 as int));
        }
        while self.stack.len() > n0
            invariant
                self.ast == ast_mid,
                n0 <= self.stack@.len(),
                self.stack@.len() <= gmid.stack.len(),
                self.stack.deep_view() =~= gmid.stack.take(self.stack@.len() as int),
                self.reg_count as int == gmid.reg_count,
                self.label_count as int == gmid.label_count,
                self.endif_labels.deep_view() =~= gmid.endif_labels,
                self.loop_end_labels.deep_view() =~= gmid.loop_end_labels,
                self.stk_pos <= stk_mid,
                sum_widths(gmid.stack.skip(n0 as int)) == sum_widths(
                    self.stack.deep_view().skip(n0 as int),
                ) + (stk_mid - self.stk_pos),
            decreases self.stack@.len(),
        {
            let ghost before = self.stack.deep_view();
            let popped = match self.stack.pop() {
                Some(v) => v,
                None => {
                    proof {
                        assert(false);
                    }
                    return Err(CodegenError::Internal);
                },
            };
            proof {
                assert(self.stack.deep_view() =~= before.drop_last());
                assert(before.drop_last() =~= gmid.stack.take(before.len() - 1));
                assert(before.skip(n0 as int).drop_last() =~= self.stack.deep_view().skip(
                    n0 as int,
                ));
                assert(before.skip(n0 as int).last() == gen_variable_model(popped));
                assert(sum_widths(before.skip(n0 as int)) == sum_widths(
                    self.stack.deep_view().skip(n0 as int),
                ) + popped.width);
            }
            let w = popped.width as u64;
            if self.stk_pos < w {
                proof {
                    lemma_sum_widths_nonneg(self.stack.deep_view().skip(n0 as int));
                }
                return Err(CodegenError::Internal);
            }
            self.stk_pos = self.stk_pos - w;
        }
        let alloc = stk_mid - self.stk_pos;
        proof {
            assert(self.stack.deep_view() =~= gmid.stack.take(n0 as int));
            assert(self.stack.deep_view().skip(n0 as int) =~= Seq::<GenVariableModel>::empty());
            assert(sum_widths(gmid.stack.skip(n0 as int)) == stk_mid - self.stk_pos);
        }
        if alloc > 0 {
            let mut s = String::from_str("    sub rsp, ");
            push_dec(&mut s, alloc);
            s.append("\n");
            s.append(body.as_str());
            Ok(s)
        } else {
            Ok(body)
        }
    }

    /// A statement list lowered in order; see [`spec_gen_stmt_list`].
    fn gen_stmts(&mut self, stmts: Vec<NodeStmt>) -> (r: Result<String, CodegenError>)
        ensures
            final(self).ast == old(self).ast,
            match r {
                Ok(s) => spec_gen_stmt_list(gen_state(*old(self)), stmts_model(stmts@)) == (
                GRes::Emitted { v: s@, st: gen_state(*final(self)) }),
                Err(e) => spec_gen_stmt_list(gen_state(*old(self)), stmts_model(stmts@))
                    == GRes::Fail::<Seq<char>>(e@),
            },
        decreases stmts@, 2int,
    {
        let ghost l0 = stmts_model(stmts@);
        if stmts.len() == 0 {
            return Ok(String::new());
        }
        let mut stmts = stmts;
        let ghost v0 = stmts@;
        let s = stmts.remove(0);
        proof {
            assert(stmts@ =~= v0.drop_first());
            assert(l0[0] == stmt_model(s));
            assert(l0.drop_first() =~= stmts_model(stmts@));
        }
        let first = self.gen_stmt(s)?;
        let rest = self.gen_stmts(stmts)?;
        let mut out = first;
        out.append(rest.as_str());
        Ok(out)
    }

    /// A top-level statement lowered; see [`spec_gen_top_level`].
    fn gen_top_level(&mut self, stmt: NodeStmt) -> (r: Result<String, CodegenError>)
        ensures
            final(self).ast == old(self).ast,
            match r {
                Ok(s) => spec_gen_top_level(gen_state(*old(self)), stmt@) == (GRes::Emitted {
                    v: s@,
                    st: gen_state(*final(self)),
                }),
                Err(e) => spec_gen_top_level(gen_state(*old(self)), stmt@) == GRes::Fail::<
                    Seq<char>,
                >(e@),
            },
        decreases stmt, 1int,
    {
        match stmt {
            NodeStmt::FnSemantics(_) => Err(CodegenError::Unimplemented),
            other => self.gen_stmt(other),
        }
    }

    /// The program's statements lowered in order; see [`spec_gen_prog`].
    fn gen_prog(&mut self, stmts: Vec<NodeStmt>) -> (r: Result<String, CodegenError>)
        ensures
            final(self).ast == old(self).ast,
            match r {
                Ok(s) => spec_gen_prog(gen_state(*old(self)), stmts_model(stmts@)) == (
                GRes::Emitted { v: s@, st: gen_state(*final(self)) }),
                Err(e) => spec_gen_prog(gen_state(*old(self)), stmts_model(stmts@)) == GRes::Fail::<
                    Seq<char>,
                >(e@),
            },
        decreases stmts@, 3int,
    {
        let ghost l0 = stmts_model(stmts@);
        if stmts.len() == 0 {
            return Ok(String::new());
        }
        let mut stmts = stmts;
        let ghost v0 = stmts@;
        let s = stmts.remove(0);
        proof {
            assert(stmts@ =~= v0.drop_first());
            assert(l0[0] == stmt_model(s));
            assert(l0.drop_first() =~= stmts_model(stmts@));
        }
        let first = self.gen_top_level(s)?;
        let rest = self.gen_prog(stmts)?;
        let mut out = first;
        out.append(rest.as_str());
        Ok(out)
    }

    /// Lowers the whole annotated program, consuming its statements: the
    /// entry-point declaration followed by each statement's text, or the
    /// first failure; see [`spec_gen_asm`]. Either way the held tree is
    /// drained: its statements are removed as they are lowered.
    pub fn gen_asm(&mut self) -> (r: Result<String, CodegenError>)
        ensures
            final(self).ast.stmts@.len() == 0,
            match r {
                Ok(s) => spec_gen_asm(gen_state(*old(self)), old(self).ast@.stmts) == Ok::<
                    Seq<char>,
                    CodegenErrorModel,
                >(s@),
                Err(e) => spec_gen_asm(gen_state(*old(self)), old(self).ast@.stmts) == Err::<
                    Seq<char>,
                    CodegenErrorModel,
                >(e@),
            },
    {
        let mut stmts: Vec<NodeStmt> = Vec::new();
        stmts.append(&mut self.ast.stmts);
        proof {
            assert(stmts@ =~= old(self).ast.stmts@);
        }
        let body = match self.gen_prog(stmts) {
            Ok(b) => b,
            Err(e) => {
                return Err(e);
            },
        };
        let mut out = String::from_str("global main\n");
        out.append(body.as_str());
        Ok(out)
    }
}

} // verus!
