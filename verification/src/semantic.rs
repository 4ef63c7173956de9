//! Semantic analysis: the rules of the language.
//!
//! The checker walks the syntax tree, resolves names against a flat,
//! insertion-ordered variable stack and the type registry, rewrites
//! declarations into semantically-annotated nodes, and rejects the first
//! rule violation it meets.

use vstd::prelude::*;
use crate::lex::{Token, TokenModel, TokenKind};
use crate::parse::{NodeExpr, NodeTerm, NodeStmt, NodeScope, Arg, ExprModel, expr_model, TermModel, StmtModel, ScopeModel, ArgModel, ASTModel, AST, args_model, arg_model, stmts_model, stmt_model, lemma_stmts_model_index};
use crate::errors::{SemanticError, SemanticErrorModel};

verus! {

/// How many bytes a pointer occupies.
pub open spec fn spec_ptr_width() -> usize {
    8
}

/// What operations a type admits, and its sign where it is numeric.
#[derive(Debug, Clone, Copy, PartialEq, Eq, Structural)]
pub enum TypeMode {
    Void,
    Bool,
    /// An integer literal: unsized until unified with a concrete type.
    IntLit,
    Int { signed: bool },
    Float { signed: bool },
}

/// How a value is represented in memory, which decides the operators
/// that apply to it.
#[derive(Debug, Clone, Copy, PartialEq, Eq, Structural)]
pub enum AddressingMode {
    Primitive,
    Pointer,
    Array,
}

/// What backs an expression's value: a declared variable, addressed as a
/// stable index into the checker's variable stack, or a computed value
/// that only carries a width.
#[derive(Debug, Clone, Copy, PartialEq, Eq, Structural)]
pub enum ExprForm {
    Variable { index: usize },
    Expr { inherited_width: usize },
}

/// The checker's result for an expression node.
#[derive(Debug, Clone, Copy, PartialEq, Eq, Structural)]
pub struct ExprData {
    pub type_mode: TypeMode,
    pub addr_mode: AddressingMode,
    pub form: ExprForm,
}

/// The shape of a registered type: a base type, or the designed-for but
/// unimplemented struct and union forms.
#[derive(Debug, Clone, PartialEq)]
pub enum TypeForm {
    Base { type_mode: TypeMode },
    Struct { member_ids: Vec<usize> },
    Union {},
}

/// Mathematical model of a [`TypeForm`].
pub enum TypeFormModel {
    Base { type_mode: TypeMode },
    Struct { member_ids: Seq<usize> },
    Union {},
}

impl View for TypeForm {
    type V = TypeFormModel;

    open spec fn view(&self) -> TypeFormModel {
        match *self {
            TypeForm::Base { type_mode } => TypeFormModel::Base { type_mode },
            TypeForm::Struct { ref member_ids } => TypeFormModel::Struct { member_ids: member_ids@ },
            TypeForm::Union {} => TypeFormModel::Union {},
        }
    }
}

/// A registered type: its width in bytes, its name, and its form.
#[derive(Debug, Clone, PartialEq)]
pub struct Type {
    pub width: usize,
    pub ident: String,
    pub form: TypeForm,
}

/// Mathematical model of a [`Type`].
pub struct TypeModel {
    pub width: usize,
    pub ident: Seq<char>,
    pub form: TypeFormModel,
}

impl View for Type {
    type V = TypeModel;

    open spec fn view(&self) -> TypeModel {
        TypeModel { width: self.width, ident: self.ident@, form: self.form@ }
    }
}

impl DeepView for Type {
    type V = TypeModel;

    open spec fn deep_view(&self) -> TypeModel {
        self.view()
    }
}

/// A declared variable after checking: its resolved width, mutability,
/// name, type, addressing mode and initializer.
#[derive(Debug, PartialEq)]
pub struct SemVariable {
    pub width: usize,
    pub mutable: bool,
    pub ident: Token,
    pub type_id: usize,
    pub addr_mode: AddressingMode,
    pub init_expr: Option<NodeExpr>,
}

/// Mathematical model of a [`SemVariable`].
pub struct SemVariableModel {
    pub width: usize,
    pub mutable: bool,
    pub ident: TokenModel,
    pub type_id: usize,
    pub addr_mode: AddressingMode,
    pub init_expr: Option<ExprModel>,
}

/// The model of a checked variable.
pub open spec fn sem_variable_model(v: SemVariable) -> SemVariableModel {
    SemVariableModel {
        width: v.width,
        mutable: v.mutable,
        ident: v.ident@,
        type_id: v.type_id,
        addr_mode: v.addr_mode,
        init_expr: match v.init_expr {
            Some(e) => Some(expr_model(e)),
            None => None,
        },
    }
}

impl View for SemVariable {
    type V = SemVariableModel;

    open spec fn view(&self) -> SemVariableModel {
        sem_variable_model(*self)
    }
}

impl DeepView for SemVariable {
    type V = SemVariableModel;

    open spec fn deep_view(&self) -> SemVariableModel {
        sem_variable_model(*self)
    }
}

/// A declared function after checking. Function semantics are a designed
/// extension point: nothing is carried yet.
#[derive(Debug, Clone, PartialEq, Eq, Structural)]
pub struct SemFn {}

// ---------------------------------------------------------------------------
// The checker's specification
// ---------------------------------------------------------------------------

/// The checker's abstract state: the nesting depth of loops, the type
/// registry, the flat insertion-ordered variable stack, and the declared
/// function names.
pub struct CheckerModel {
    pub loop_count: int,
    pub types: Seq<TypeModel>,
    pub vars: Seq<SemVariableModel>,
    pub fns: Seq<Seq<char>>,
}

/// A checking outcome: a rewritten value and the state after it, or the
/// first rule violation.
pub enum CRes<T> {
    Checked { v: T, st: CheckerModel },
    Fail(SemanticErrorModel),
}

/// The index of the most recently declared visible variable of this name.
pub open spec fn lookup_var(vars: Seq<SemVariableModel>, name: Seq<char>) -> Option<int>
    decreases vars.len(),
{
    if vars.len() == 0 {
        None
    } else if vars.last().ident.value == Some(name) {
        Some(vars.len() - 1)
    } else {
        lookup_var(vars.drop_last(), name)
    }
}

/// The id of the most recently registered type of this name.
pub open spec fn lookup_type(types: Seq<TypeModel>, name: Seq<char>) -> Option<int>
    decreases types.len(),
{
    if types.len() == 0 {
        None
    } else if types.last().ident == name {
        Some(types.len() - 1)
    } else {
        lookup_type(types.drop_last(), name)
    }
}

/// Whether this function name is already declared.
pub open spec fn contains_name(fns: Seq<Seq<char>>, name: Seq<char>) -> bool
    decreases fns.len(),
{
    if fns.len() == 0 {
        false
    } else {
        fns.last() == name || contains_name(fns.drop_last(), name)
    }
}

/// The width that an expression result occupies: its backing variable's
/// width, or the width a computed value inherited.
pub open spec fn spec_get_width(vars: Seq<SemVariableModel>, form: ExprForm) -> Result<
    usize,
    SemanticErrorModel,
> {
    match form {
        ExprForm::Variable { index } => if index < vars.len() {
            Ok(vars[index as int].width)
        } else {
            Err(SemanticErrorModel::Internal)
        },
        ExprForm::Expr { inherited_width } => Ok(inherited_width),
    }
}

/// Type unification: identical results unify; an unsized literal unifies
/// with anything; otherwise both sides must be numeric with one sign.
/// `bool` and `void` never unify with a numeric type.
pub open spec fn type_modes_unify(d1: ExprData, d2: ExprData) -> bool {
    if d1 == d2 {
        true
    } else if d1.type_mode is IntLit || d2.type_mode is IntLit {
        true
    } else {
        match d1.type_mode {
            TypeMode::Int { signed: s1 } => match d2.type_mode {
                TypeMode::Int { signed: s2 } => s1 == s2,
                TypeMode::Float { signed: s2 } => s1 == s2,
                _ => false,
            },
            TypeMode::Float { signed: s1 } => match d2.type_mode {
                TypeMode::Int { signed: s2 } => s1 == s2,
                TypeMode::Float { signed: s2 } => s1 == s2,
                _ => false,
            },
            _ => false,
        }
    }
}

/// The checker's result for a leaf: a resolved variable reference, or an
/// unsized literal.
pub open spec fn spec_check_term(st: CheckerModel, t: TermModel) -> Result<
    ExprData,
    SemanticErrorModel,
> {
    match t {
        TermModel::Ident(tok) => match tok.value {
            None => Err(SemanticErrorModel::MissingValue),
            Some(name) => match lookup_var(st.vars, name) {
                None => Err(SemanticErrorModel::UnknownVariable { ident: tok }),
                Some(i) => {
                    let var = st.vars[i];
                    if !(0 <= var.type_id < st.types.len()) {
                        Err(SemanticErrorModel::Internal)
                    } else {
                        match st.types[var.type_id as int].form {
                            TypeFormModel::Base { type_mode } => Ok(
                                ExprData {
                                    type_mode,
                                    addr_mode: var.addr_mode,
                                    form: ExprForm::Variable { index: i as usize },
                                },
                            ),
                            TypeFormModel::Struct { .. } => Err(SemanticErrorModel::Unimplemented),
                            TypeFormModel::Union { .. } => Err(SemanticErrorModel::Unimplemented),
                        }
                    }
                },
            },
        },
        TermModel::IntLit(_) => Ok(
            ExprData {
                type_mode: TypeMode::IntLit,
                addr_mode: AddressingMode::Primitive,
                form: ExprForm::Expr { inherited_width: 0 },
            },
        ),
    }
}

/// The checker's result for an expression: operand categories are
/// enforced per operator class, comparisons yield `bool`, logic demands
/// `bool` on both sides, arithmetic demands a numeric type and keeps the
/// left side's.
pub open spec fn spec_check_expr(st: CheckerModel, e: ExprModel) -> Result<
    ExprData,
    SemanticErrorModel,
>
    decreases e,
{
    match e {
        ExprModel::BinaryExpr { op, lhs, rhs } => match spec_check_expr(st, *lhs) {
            Err(er) => Err(er),
            Ok(ldata) => match spec_check_expr(st, *rhs) {
                Err(er) => Err(er),
                Ok(rdata) => {
                    let l_ok = ldata.addr_mode == AddressingMode::Primitive || ldata.addr_mode
                        == AddressingMode::Pointer;
                    let r_ok = rdata.addr_mode == AddressingMode::Primitive || rdata.addr_mode
                        == AddressingMode::Pointer;
                    let fl = crate::lex::flags_of(op);
                    if !(l_ok && r_ok) {
                        Err(SemanticErrorModel::InvalidBinaryAddressing { op })
                    } else if fl.log {
                        // logical operators come first: `&&` and `||` also
                        // carry the comparison flag, and they demand `bool`
                        // on both sides, whatever backs the operands
                        match spec_get_width(st.vars, ldata.form) {
                            Err(er) => Err(er),
                            Ok(width) => if ldata.type_mode == TypeMode::Bool && rdata.type_mode
                                == TypeMode::Bool {
                                Ok(
                                    ExprData {
                                        type_mode: TypeMode::Bool,
                                        addr_mode: AddressingMode::Primitive,
                                        form: ExprForm::Expr { inherited_width: width },
                                    },
                                )
                            } else {
                                Err(SemanticErrorModel::BooleanOperand { op })
                            },
                        }
                    } else if !type_modes_unify(ldata, rdata) {
                        Err(SemanticErrorModel::SignMismatch)
                    } else {
                        match spec_get_width(st.vars, ldata.form) {
                            Err(er) => Err(er),
                            Ok(width) => {
                                if fl.cmp {
                                    Ok(
                                        ExprData {
                                            type_mode: TypeMode::Bool,
                                            addr_mode: AddressingMode::Primitive,
                                            form: ExprForm::Expr { inherited_width: width },
                                        },
                                    )
                                } else if fl.arith {
                                    match ldata.type_mode {
                                        TypeMode::Int { .. } => Ok(
                                            ExprData {
                                                type_mode: ldata.type_mode,
                                                addr_mode: ldata.addr_mode,
                                                form: ExprForm::Expr { inherited_width: width },
                                            },
                                        ),
                                        TypeMode::Float { .. } => Ok(
                                            ExprData {
                                                type_mode: ldata.type_mode,
                                                addr_mode: ldata.addr_mode,
                                                form: ExprForm::Expr { inherited_width: width },
                                            },
                                        ),
                                        TypeMode::IntLit => Ok(
                                            ExprData {
                                                type_mode: ldata.type_mode,
                                                addr_mode: ldata.addr_mode,
                                                form: ExprForm::Expr { inherited_width: width },
                                            },
                                        ),
                                        _ => Err(SemanticErrorModel::NumericOperand { op }),
                                    }
                                } else {
                                    Err(SemanticErrorModel::IllegalBinaryOp { op })
                                }
                            },
                        }
                    }
                },
            },
        },
        ExprModel::UnaryExpr { op, operand } => match spec_check_expr(st, *operand) {
            Err(er) => Err(er),
            Ok(checked) => match spec_get_width(st.vars, checked.form) {
                Err(er) => Err(er),
                Ok(inherited_width) => {
                    if op == TokenKind::Tilde {
                        if checked.addr_mode == AddressingMode::Primitive {
                            Ok(checked)
                        } else {
                            Err(SemanticErrorModel::PrimitiveOperand { op })
                        }
                    } else if op == TokenKind::Sub {
                        match checked.type_mode {
                            TypeMode::Int { signed } => if signed {
                                Ok(
                                    ExprData {
                                        type_mode: TypeMode::Int { signed },
                                        addr_mode: AddressingMode::Primitive,
                                        form: ExprForm::Expr { inherited_width },
                                    },
                                )
                            } else {
                                Err(SemanticErrorModel::SignedOperand { op })
                            },
                            TypeMode::Float { signed } => if signed {
                                Ok(
                                    ExprData {
                                        type_mode: TypeMode::Int { signed },
                                        addr_mode: AddressingMode::Primitive,
                                        form: ExprForm::Expr { inherited_width },
                                    },
                                )
                            } else {
                                Err(SemanticErrorModel::SignedOperand { op })
                            },
                            TypeMode::IntLit => Ok(
                                ExprData {
                                    type_mode: TypeMode::Int { signed: true },
                                    addr_mode: AddressingMode::Primitive,
                                    form: ExprForm::Expr { inherited_width },
                                },
                            ),
                            _ => Err(SemanticErrorModel::SignedOperand { op }),
                        }
                    } else if op == TokenKind::CmpNot {
                        if checked.type_mode == TypeMode::Bool {
                            Ok(
                                ExprData {
                                    type_mode: TypeMode::Bool,
                                    addr_mode: AddressingMode::Primitive,
                                    form: ExprForm::Expr { inherited_width },
                                },
                            )
                        } else {
                            Err(SemanticErrorModel::BooleanOperand { op })
                        }
                    } else if op == TokenKind::Ampersand {
                        if checked.addr_mode == AddressingMode::Primitive {
                            match checked.form {
                                ExprForm::Variable { .. } => Ok(
                                    ExprData {
                                        type_mode: checked.type_mode,
                                        addr_mode: AddressingMode::Pointer,
                                        form: ExprForm::Expr {
                                            inherited_width: spec_ptr_width(),
                                        },
                                    },
                                ),
                                _ => Err(SemanticErrorModel::AddressableOperand { op }),
                            }
                        } else {
                            Err(SemanticErrorModel::AddressableOperand { op })
                        }
                    } else if op == TokenKind::Ptr {
                        if checked.addr_mode == AddressingMode::Pointer {
                            Ok(
                                ExprData {
                                    type_mode: checked.type_mode,
                                    addr_mode: AddressingMode::Primitive,
                                    form: ExprForm::Expr { inherited_width },
                                },
                            )
                        } else {
                            Err(SemanticErrorModel::PointerOperand { op })
                        }
                    } else {
                        Err(SemanticErrorModel::IllegalUnaryOp { op })
                    }
                },
            },
        },
        ExprModel::Term(t) => spec_check_term(st, t),
    }
}

/// Assignment coercion: the addressing modes must match, the types must
/// unify, and the source must not be wider than the destination.
/// `var_index` is the destination's slot in the variable stack, or the
/// stack's length for a declaration still being checked.
pub open spec fn spec_check_assign(
    st: CheckerModel,
    var: SemVariableModel,
    var_index: int,
    d: ExprData,
) -> Result<(), SemanticErrorModel> {
    if var.addr_mode != d.addr_mode {
        Err(SemanticErrorModel::AddressingMismatch)
    } else if !(0 <= var.type_id < st.types.len()) {
        Err(SemanticErrorModel::Internal)
    } else {
        match st.types[var.type_id as int].form {
            TypeFormModel::Base { type_mode } => {
                let temp = ExprData {
                    type_mode,
                    addr_mode: var.addr_mode,
                    form: ExprForm::Variable { index: var_index as usize },
                };
                if !type_modes_unify(temp, d) {
                    Err(SemanticErrorModel::SignMismatch)
                } else {
                    match spec_get_width(st.vars, d.form) {
                        Err(er) => Err(er),
                        Ok(w) => if w > var.width {
                            Err(
                                SemanticErrorModel::NarrowingAssign {
                                    ident: var.ident,
                                    var_width: var.width,
                                    expr_width: w,
                                },
                            )
                        } else {
                            Ok(())
                        },
                    }
                }
            },
            TypeFormModel::Struct { .. } => Err(SemanticErrorModel::Unimplemented),
            TypeFormModel::Union { .. } => Err(SemanticErrorModel::Unimplemented),
        }
    }
}

/// Parameter checking: names unique within the list, types resolved.
pub open spec fn spec_check_args(
    types: Seq<TypeModel>,
    args: Seq<ArgModel>,
    seen: Seq<Seq<char>>,
) -> Result<(), SemanticErrorModel>
    decreases args.len(),
{
    if args.len() == 0 {
        Ok(())
    } else {
        let a = args[0];
        match a.ident.value {
            None => Err(SemanticErrorModel::MissingValue),
            Some(name) => if contains_name(seen, name) {
                Err(SemanticErrorModel::DuplicateArgument { ident: a.ident })
            } else {
                match a.type_ident.value {
                    None => Err(SemanticErrorModel::MissingValue),
                    Some(tname) => match lookup_type(types, tname) {
                        None => Err(SemanticErrorModel::UnknownType { ident: a.type_ident }),
                        Some(_) => spec_check_args(types, args.drop_first(), seen.push(name)),
                    },
                }
            },
        }
    }
}

/// The name `void`, the default return type of a function.
pub open spec fn void_name() -> Seq<char> {
    "void"@
}

/// The terminal-return rule of a function body: only the last statement
/// is inspected; it must be a `return` (whose expression must check), or,
/// shallowly, an `if`. An empty body is allowed only for `void`.
pub open spec fn spec_check_fn_return(
    st: CheckerModel,
    scope: ScopeModel,
    ret_type_tok: Option<TokenModel>,
) -> Result<(), SemanticErrorModel> {
    if scope.stmts.len() == 0 {
        if ret_type_tok is None {
            Ok(())
        } else {
            Err(SemanticErrorModel::MissingReturn)
        }
    } else {
        match scope.stmts.last() {
            StmtModel::If { .. } => Ok(()),
            StmtModel::Return(oe) => match oe {
                Some(e) => match spec_check_expr(st, e) {
                    Ok(_) => Ok(()),
                    Err(er) => Err(er),
                },
                None => if ret_type_tok is None {
                    Ok(())
                } else {
                    Err(SemanticErrorModel::MismatchedReturn)
                },
            },
            _ => Err(SemanticErrorModel::MissingReturn),
        }
    }
}

/// One statement checked against the current state: declarations are
/// rewritten to annotated nodes, rules are enforced, and the state gains
/// what the statement declares.
pub open spec fn spec_check_stmt(st: CheckerModel, s: StmtModel) -> CRes<StmtModel>
    decreases s,
{
    match s {
        StmtModel::VarDecl { init_expr, ident, type_ident, mutable, ptr } => match ident.value {
            None => CRes::Fail(SemanticErrorModel::MissingValue),
            Some(name) => if lookup_var(st.vars, name) is Some {
                CRes::Fail(SemanticErrorModel::DuplicateVariable { ident })
            } else if lookup_type(st.types, name) is Some {
                CRes::Fail(SemanticErrorModel::ReservedTypeName { ident })
            } else {
                match type_ident.value {
                    None => CRes::Fail(SemanticErrorModel::MissingValue),
                    Some(tname) => match lookup_type(st.types, tname) {
                        None => CRes::Fail(SemanticErrorModel::UnknownType { ident: type_ident }),
                        Some(type_id) => {
                            let width = if ptr {
                                spec_ptr_width()
                            } else {
                                st.types[type_id].width
                            };
                            let addr_mode = if ptr {
                                AddressingMode::Pointer
                            } else {
                                AddressingMode::Primitive
                            };
                            let entry = SemVariableModel {
                                width,
                                mutable,
                                ident,
                                type_id: type_id as usize,
                                addr_mode,
                                init_expr: None,
                            };
                            let var = SemVariableModel {
                                width,
                                mutable,
                                ident,
                                type_id: type_id as usize,
                                addr_mode,
                                init_expr,
                            };
                            let st2 = CheckerModel {
                                loop_count: st.loop_count,
                                types: st.types,
                                vars: st.vars.push(entry),
                                fns: st.fns,
                            };
                            match init_expr {
                                None => CRes::Checked { v: StmtModel::VarSemantics(var), st: st2 },
                                Some(e) => match spec_check_expr(st2, e) {
                                    Err(er) => CRes::Fail(er),
                                    Ok(d) => match spec_check_assign(
                                        st2,
                                        var,
                                        st2.vars.len() as int,
                                        d,
                                    ) {
                                        Err(er) => CRes::Fail(er),
                                        Ok(_) => CRes::Checked {
                                            v: StmtModel::VarSemantics(var),
                                            st: st2,
                                        },
                                    },
                                },
                            }
                        },
                    },
                }
            },
        },
        StmtModel::If { condition, scope, branches } => match spec_check_expr(st, condition) {
            Err(er) => CRes::Fail(er),
            Ok(d) => if d.type_mode != TypeMode::Bool {
                CRes::Fail(SemanticErrorModel::NonBooleanCondition)
            } else {
                match spec_check_stmts(st, branches) {
                    CRes::Fail(er) => CRes::Fail(er),
                    CRes::Checked { v: new_branches, st: st2 } => match spec_check_scope(
                        st2,
                        scope,
                    ) {
                        CRes::Fail(er) => CRes::Fail(er),
                        CRes::Checked { v: new_scope, st: st3 } => CRes::Checked {
                            v: StmtModel::If {
                                condition,
                                scope: new_scope,
                                branches: new_branches,
                            },
                            st: st3,
                        },
                    },
                }
            },
        },
        StmtModel::FnDecl { ident, args, scope, ret_type_tok } => match ident.value {
            None => CRes::Fail(SemanticErrorModel::MissingValue),
            Some(name) => if contains_name(st.fns, name) {
                CRes::Fail(SemanticErrorModel::DuplicateFunction { ident })
            } else if lookup_type(st.types, name) is Some {
                CRes::Fail(SemanticErrorModel::ReservedTypeName { ident })
            } else {
                match spec_check_args(st.types, args, Seq::empty()) {
                    Err(er) => CRes::Fail(er),
                    Ok(_) => {
                        let ret_name_r: Result<Seq<char>, SemanticErrorModel> = match ret_type_tok {
                            Some(t) => match t.value {
                                Some(n) => Ok(n),
                                None => Err(SemanticErrorModel::MissingValue),
                            },
                            None => Ok(void_name()),
                        };
                        match ret_name_r {
                            Err(er) => CRes::Fail(er),
                            Ok(rname) => match lookup_type(st.types, rname) {
                                None => CRes::Fail(
                                    SemanticErrorModel::UnknownType {
                                        ident: match ret_type_tok {
                                            Some(t) => t,
                                            None => ident,
                                        },
                                    },
                                ),
                                Some(_) => match spec_check_fn_return(st, scope, ret_type_tok) {
                                    Err(er) => CRes::Fail(er),
                                    Ok(_) => CRes::Checked {
                                        v: StmtModel::FnSemantics(SemFn {  }),
                                        st: CheckerModel {
                                            loop_count: st.loop_count,
                                            types: st.types,
                                            vars: st.vars,
                                            fns: st.fns.push(name),
                                        },
                                    },
                                },
                            },
                        }
                    },
                }
            },
        },
        StmtModel::ElseIf { condition, scope } => match spec_check_expr(st, condition) {
            Err(er) => CRes::Fail(er),
            Ok(d) => if d.type_mode != TypeMode::Bool {
                CRes::Fail(SemanticErrorModel::NonBooleanCondition)
            } else {
                match spec_check_scope(st, scope) {
                    CRes::Fail(er) => CRes::Fail(er),
                    CRes::Checked { v: new_scope, st: st2 } => CRes::Checked {
                        v: StmtModel::ElseIf { condition, scope: new_scope },
                        st: st2,
                    },
                }
            },
        },
        StmtModel::Else(scope) => match spec_check_scope(st, scope) {
            CRes::Fail(er) => CRes::Fail(er),
            CRes::Checked { v: new_scope, st: st2 } => CRes::Checked {
                v: StmtModel::Else(new_scope),
                st: st2,
            },
        },
        StmtModel::While { condition, scope } => {
            if st.loop_count >= 0xFFFF_FFFF_FFFF_FFFFu64 as int {
                CRes::Fail(SemanticErrorModel::Internal)
            } else {
                let st1 = CheckerModel {
                    loop_count: st.loop_count + 1,
                    types: st.types,
                    vars: st.vars,
                    fns: st.fns,
                };
                match spec_check_expr(st1, condition) {
                    Err(er) => CRes::Fail(er),
                    Ok(_) => match spec_check_scope(st1, scope) {
                        CRes::Fail(er) => CRes::Fail(er),
                        CRes::Checked { v: new_scope, st: st2 } => if st2.loop_count <= 0 {
                            CRes::Fail(SemanticErrorModel::Internal)
                        } else {
                            CRes::Checked {
                                v: StmtModel::While { condition, scope: new_scope },
                                st: CheckerModel {
                                    loop_count: st2.loop_count - 1,
                                    types: st2.types,
                                    vars: st2.vars,
                                    fns: st2.fns,
                                },
                            }
                        },
                    },
                }
            }
        },
        StmtModel::Assign { ident, expr } => match ident.value {
            None => CRes::Fail(SemanticErrorModel::MissingValue),
            Some(name) => match lookup_var(st.vars, name) {
                None => CRes::Fail(SemanticErrorModel::UnknownVariable { ident }),
                Some(i) => {
                    let var = st.vars[i];
                    if !var.mutable {
                        CRes::Fail(SemanticErrorModel::AssignToConstant { ident })
                    } else {
                        match spec_check_expr(st, expr) {
                            Err(er) => CRes::Fail(er),
                            Ok(d) => match spec_check_assign(st, var, i, d) {
                                Err(er) => CRes::Fail(er),
                                Ok(_) => CRes::Checked {
                                    v: StmtModel::Assign { ident, expr },
                                    st,
                                },
                            },
                        }
                    }
                },
            },
        },
        StmtModel::Exit(expr) => match spec_check_expr(st, expr) {
            Err(er) => CRes::Fail(er),
            Ok(_) => CRes::Checked { v: StmtModel::Exit(expr), st },
        },
        StmtModel::NakedScope(scope) => match spec_check_scope(st, scope) {
            CRes::Fail(er) => CRes::Fail(er),
            CRes::Checked { v: new_scope, st: st2 } => CRes::Checked {
                v: StmtModel::NakedScope(new_scope),
                st: st2,
            },
        },
        StmtModel::Break => if st.loop_count <= 0 {
            CRes::Fail(SemanticErrorModel::NotInLoop)
        } else {
            CRes::Checked { v: StmtModel::Break, st }
        },
        StmtModel::Return(oe) => match oe {
            Some(e) => match spec_check_expr(st, e) {
                Err(er) => CRes::Fail(er),
                Ok(_) => CRes::Checked { v: StmtModel::Return(oe), st },
            },
            None => CRes::Checked { v: StmtModel::Return(oe), st },
        },
        StmtModel::VarSemantics(_) => CRes::Fail(SemanticErrorModel::UnexpectedSemantics),
        StmtModel::FnSemantics(_) => CRes::Fail(SemanticErrorModel::UnexpectedSemantics),
    }
}

/// A statement list checked in order, the state threading through.
pub open spec fn spec_check_stmts(st: CheckerModel, l: Seq<StmtModel>) -> CRes<Seq<StmtModel>>
    decreases l,
{
    if l.len() == 0 {
        CRes::Checked { v: Seq::empty(), st }
    } else {
        match spec_check_stmt(st, l[0]) {
            CRes::Fail(er) => CRes::Fail(er),
            CRes::Checked { v: s2, st: st1 } => match spec_check_stmts(st1, l.drop_first()) {
                CRes::Fail(er) => CRes::Fail(er),
                CRes::Checked { v: rest, st: st2 } => CRes::Checked {
                    v: seq![s2] + rest,
                    st: st2,
                },
            },
        }
    }
}

/// A scope checked: its statements in order, then every variable pushed
/// inside it popped again, which ends their visibility with the scope.
pub open spec fn spec_check_scope(st: CheckerModel, sc: ScopeModel) -> CRes<ScopeModel>
    decreases sc,
{
    let var_count = st.vars.len() as int;
    match spec_check_stmts(st, sc.stmts) {
        CRes::Fail(er) => CRes::Fail(er),
        CRes::Checked { v: stmts2, st: st2 } => {
            let kept = if var_count <= st2.vars.len() {
                st2.vars.take(var_count)
            } else {
                st2.vars
            };
            CRes::Checked {
                v: ScopeModel { stmts: stmts2, inherits_stmts: true },
                st: CheckerModel {
                    loop_count: st2.loop_count,
                    types: st2.types,
                    vars: kept,
                    fns: st2.fns,
                },
            }
        },
    }
}

/// The fixed initial type registry.
pub open spec fn initial_types() -> Seq<TypeModel> {
    seq![
        TypeModel { width: 0, ident: "void"@, form: TypeFormModel::Base { type_mode: TypeMode::Void } },
        TypeModel { width: 1, ident: "bool"@, form: TypeFormModel::Base { type_mode: TypeMode::Bool } },
        TypeModel { width: 1, ident: "u8"@, form: TypeFormModel::Base { type_mode: TypeMode::Int { signed: false } } },
        TypeModel { width: 2, ident: "u16"@, form: TypeFormModel::Base { type_mode: TypeMode::Int { signed: false } } },
        TypeModel { width: 4, ident: "u32"@, form: TypeFormModel::Base { type_mode: TypeMode::Int { signed: false } } },
        TypeModel { width: 8, ident: "u64"@, form: TypeFormModel::Base { type_mode: TypeMode::Int { signed: false } } },
        TypeModel { width: 8, ident: "usize"@, form: TypeFormModel::Base { type_mode: TypeMode::Int { signed: false } } },
        TypeModel { width: 1, ident: "i8"@, form: TypeFormModel::Base { type_mode: TypeMode::Int { signed: true } } },
        TypeModel { width: 2, ident: "i16"@, form: TypeFormModel::Base { type_mode: TypeMode::Int { signed: true } } },
        TypeModel { width: 4, ident: "i32"@, form: TypeFormModel::Base { type_mode: TypeMode::Int { signed: true } } },
        TypeModel { width: 8, ident: "i64"@, form: TypeFormModel::Base { type_mode: TypeMode::Int { signed: true } } },
        TypeModel { width: 8, ident: "isize"@, form: TypeFormModel::Base { type_mode: TypeMode::Int { signed: true } } },
        TypeModel { width: 4, ident: "f32"@, form: TypeFormModel::Base { type_mode: TypeMode::Float { signed: true } } },
        TypeModel { width: 8, ident: "f64"@, form: TypeFormModel::Base { type_mode: TypeMode::Float { signed: true } } },
    ]
}

/// The whole program checked from the initial state: the annotated
/// statements and the final type registry, or the first rule violation.
pub open spec fn spec_check_ast(a: ASTModel) -> Result<
    (Seq<StmtModel>, Seq<TypeModel>),
    SemanticErrorModel,
> {
    let st0 = CheckerModel {
        loop_count: 0,
        types: initial_types(),
        vars: Seq::empty(),
        fns: Seq::empty(),
    };
    match spec_check_stmts(st0, a.stmts) {
        CRes::Fail(er) => Err(er),
        CRes::Checked { v, st } => Ok((v, st.types)),
    }
}

// ---------------------------------------------------------------------------
// Laws of the checker
// ---------------------------------------------------------------------------

/// A checked statement never disturbs the variables that were visible
/// when it began: they stay, in order, as a prefix of the stack.
pub proof fn lemma_stmt_preserves_vars(st: CheckerModel, s: StmtModel)
    ensures
        match spec_check_stmt(st, s) {
            CRes::Checked { st: st2, .. } => st2.vars.len() >= st.vars.len() && st2.vars.take(
                st.vars.len() as int,
            ) == st.vars,
            CRes::Fail(_) => true,
        },
    decreases s,
{
    let l = st.vars.len() as int;
    match s {
        StmtModel::VarDecl { .. } => {
            match spec_check_stmt(st, s) {
                CRes::Checked { st: st2, .. } => {
                    assert(st2.vars.take(l) =~= st.vars);
                },
                CRes::Fail(_) => {},
            }
        },
        StmtModel::If { condition, scope, branches } => {
            lemma_stmts_preserve_vars(st, branches);
            match spec_check_stmts(st, branches) {
                CRes::Checked { st: stb, .. } => {
                    lemma_scope_restores_vars(stb, scope);
                    match spec_check_scope(stb, scope) {
                        CRes::Checked { st: st3, .. } => {
                            assert(st3.vars.take(l) =~= stb.vars.take(l));
                        },
                        CRes::Fail(_) => {},
                    }
                },
                CRes::Fail(_) => {},
            }
        },
        StmtModel::ElseIf { condition, scope } => {
            lemma_scope_restores_vars(st, scope);
            assert(st.vars.take(l) =~= st.vars);
        },
        StmtModel::Else(scope) => {
            lemma_scope_restores_vars(st, scope);
            assert(st.vars.take(l) =~= st.vars);
        },
        StmtModel::While { condition, scope } => {
            let st1 = CheckerModel {
                loop_count: st.loop_count + 1,
                types: st.types,
                vars: st.vars,
                fns: st.fns,
            };
            lemma_scope_restores_vars(st1, scope);
            assert(st.vars.take(l) =~= st.vars);
        },
        StmtModel::NakedScope(scope) => {
            lemma_scope_restores_vars(st, scope);
            assert(st.vars.take(l) =~= st.vars);
        },
        _ => {
            assert(st.vars.take(l) =~= st.vars);
        },
    }
}

/// A checked statement list never disturbs the variables that were
/// visible when it began.
pub proof fn lemma_stmts_preserve_vars(st: CheckerModel, stmts: Seq<StmtModel>)
    ensures
        match spec_check_stmts(st, stmts) {
            CRes::Checked { st: st2, .. } => st2.vars.len() >= st.vars.len() && st2.vars.take(
                st.vars.len() as int,
            ) == st.vars,
            CRes::Fail(_) => true,
        },
    decreases stmts,
{
    let l = st.vars.len() as int;
    if stmts.len() == 0 {
        assert(st.vars.take(l) =~= st.vars);
    } else {
        lemma_stmt_preserves_vars(st, stmts[0]);
        match spec_check_stmt(st, stmts[0]) {
            CRes::Checked { st: st1, .. } => {
                lemma_stmts_preserve_vars(st1, stmts.drop_first());
                match spec_check_stmts(st1, stmts.drop_first()) {
                    CRes::Checked { st: st2, .. } => {
                        assert(st2.vars.take(l) =~= st2.vars.take(st1.vars.len() as int).take(l));
                        assert(st1.vars.take(l) == st.vars);
                    },
                    CRes::Fail(_) => {},
                }
            },
            CRes::Fail(_) => {},
        }
    }
}

/// Scope discipline: a checked scope leaves the variable stack exactly
/// as it found it. A variable declared inside the scope is popped the
/// moment the scope closes, so it resolves nowhere outside it, while a
/// sibling scope may declare the same name afresh.
pub proof fn lemma_scope_restores_vars(st: CheckerModel, sc: ScopeModel)
    ensures
        match spec_check_scope(st, sc) {
            CRes::Checked { st: st2, .. } => st2.vars == st.vars,
            CRes::Fail(_) => true,
        },
    decreases sc,
{
    lemma_stmts_preserve_vars(st, sc.stmts);
}

/// Narrowing: an assignment whose source is computed wider than the
/// destination's declared width is rejected, whatever else holds of it.
pub proof fn lemma_narrowing_rejected(
    st: CheckerModel,
    var: SemVariableModel,
    var_index: int,
    d: ExprData,
)
    requires
        match spec_get_width(st.vars, d.form) {
            Ok(w) => w > var.width,
            Err(_) => false,
        },
    ensures
        spec_check_assign(st, var, var_index, d) is Err,
{
}

/// Literal coercion: an unsized integer literal assigns to an integer or
/// float variable of any width, regardless of the literal's own value —
/// it carries width zero, so narrowing never rejects it.
pub proof fn lemma_literal_coerces(
    st: CheckerModel,
    var: SemVariableModel,
    var_index: int,
    d: ExprData,
)
    requires
        d.type_mode == TypeMode::IntLit,
        d.addr_mode == var.addr_mode,
        d.form == (ExprForm::Expr { inherited_width: 0 }),
        0 <= var.type_id < st.types.len(),
        match st.types[var.type_id as int].form {
            TypeFormModel::Base { type_mode } => type_mode is Int || type_mode is Float,
            _ => false,
        },
    ensures
        spec_check_assign(st, var, var_index, d) is Ok,
{
}

/// Loop context: `break` checks exactly when a loop is open, and is
/// otherwise rejected as outside any loop.
pub proof fn lemma_break_needs_loop(st: CheckerModel)
    ensures
        st.loop_count <= 0 ==> spec_check_stmt(st, StmtModel::Break) == CRes::Fail::<StmtModel>(
            SemanticErrorModel::NotInLoop,
        ),
        st.loop_count > 0 ==> spec_check_stmt(st, StmtModel::Break) == (CRes::Checked {
            v: StmtModel::Break,
            st,
        }),
{
}

/// Mutability: assignment to a variable declared without `mut` is
/// rejected as re-assignment of a constant, before the assigned
/// expression is even looked at.
pub proof fn lemma_assign_to_constant_rejected(
    st: CheckerModel,
    ident: TokenModel,
    expr: ExprModel,
    i: int,
)
    requires
        match ident.value {
            Some(name) => lookup_var(st.vars, name) == Some(i) && !st.vars[i].mutable,
            None => false,
        },
    ensures
        spec_check_stmt(st, StmtModel::Assign { ident, expr }) == CRes::Fail::<StmtModel>(
            SemanticErrorModel::AssignToConstant { ident },
        ),
{
}

// ---------------------------------------------------------------------------
// The checker
// ---------------------------------------------------------------------------

/// What the checker hands the code generator: the annotated tree and the
/// final type registry.
#[derive(Debug, PartialEq)]
pub struct HandoffData {
    pub ast: AST,
    pub types: Vec<Type>,
}

/// Mathematical model of a [`HandoffData`].
pub struct HandoffDataModel {
    pub ast: ASTModel,
    pub types: Seq<TypeModel>,
}

impl View for HandoffData {
    type V = HandoffDataModel;

    open spec fn view(&self) -> HandoffDataModel {
        HandoffDataModel { ast: self.ast@, types: self.types.deep_view() }
    }
}

/// The semantic checker's working state.
pub struct Checker {
    pub loop_count: u64,
    pub types: Vec<Type>,
    pub vars: Vec<SemVariable>,
    pub fn_set: Vec<String>,
}

/// The abstract state of a checker.
pub open spec fn checker_state(c: Checker) -> CheckerModel {
    CheckerModel {
        loop_count: c.loop_count as int,
        types: c.types.deep_view(),
        vars: c.vars.deep_view(),
        fns: c.fn_set.deep_view(),
    }
}

/// The most recently declared of the first `k` variables with this name.
fn find_var(vars: &Vec<SemVariable>, k: usize, name: &String) -> (r: Option<usize>)
    requires
        k <= vars@.len(),
    ensures
        match r {
            Some(i) => i < k && lookup_var(vars.deep_view().take(k as int), name@) == Some(
                i as int,
            ),
            None => lookup_var(vars.deep_view().take(k as int), name@) is None,
        },
    decreases k,
{
    if k == 0 {
        None
    } else {
        proof {
            assert(vars.deep_view().take(k as int).drop_last() =~= vars.deep_view().take(
                k - 1 as int,
            ));
            assert(vars.deep_view().take(k as int).last() == vars@[k - 1 as int].deep_view());
        }
        let matched = match vars[k - 1].ident.value {
            Some(ref s) => *s == *name,
            None => false,
        };
        if matched {
            Some(k - 1)
        } else {
            find_var(vars, k - 1, name)
        }
    }
}

/// The most recently registered of the first `k` types with this name.
fn find_type(types: &Vec<Type>, k: usize, name: &String) -> (r: Option<usize>)
    requires
        k <= types@.len(),
    ensures
        match r {
            Some(i) => i < k && lookup_type(types.deep_view().take(k as int), name@) == Some(
                i as int,
            ),
            None => lookup_type(types.deep_view().take(k as int), name@) is None,
        },
    decreases k,
{
    if k == 0 {
        None
    } else {
        proof {
            assert(types.deep_view().take(k as int).drop_last() =~= types.deep_view().take(
                k - 1 as int,
            ));
            assert(types.deep_view().take(k as int).last() == types@[k - 1 as int].deep_view());
        }
        if types[k - 1].ident == *name {
            Some(k - 1)
        } else {
            find_type(types, k - 1, name)
        }
    }
}

/// Whether one of the first `k` declared function names is this name.
fn name_declared(fns: &Vec<String>, k: usize, name: &String) -> (r: bool)
    requires
        k <= fns@.len(),
    ensures
        r == contains_name(fns.deep_view().take(k as int), name@),
    decreases k,
{
    if k == 0 {
        false
    } else {
        proof {
            assert(fns.deep_view().take(k as int).drop_last() =~= fns.deep_view().take(
                k - 1 as int,
            ));
            assert(fns.deep_view().take(k as int).last() == fns@[k - 1 as int].deep_view());
        }
        if fns[k - 1] == *name {
            true
        } else {
            name_declared(fns, k - 1, name)
        }
    }
}

/// Parameter checking from position `i` on: names unique, types resolved.
fn check_args_from(types: &Vec<Type>, args: &Vec<Arg>, i: usize, seen: &mut Vec<String>) -> (r:
    Result<(), SemanticError>)
    requires
        i <= args@.len(),
    ensures
        match r {
            Ok(_) => spec_check_args(
                types.deep_view(),
                args_model(args@).skip(i as int),
                old(seen).deep_view(),
            ) is Ok,
            Err(e) => spec_check_args(
                types.deep_view(),
                args_model(args@).skip(i as int),
                old(seen).deep_view(),
            ) == Err::<(), SemanticErrorModel>(e@),
        },
    decreases args@.len() - i,
{
    let ghost suffix = args_model(args@).skip(i as int);
    if i >= args.len() {
        proof {
            assert(suffix.len() == 0);
        }
        return Ok(());
    }
    proof {
        assert(suffix[0] == arg_model(args@[i as int]));
        assert(suffix.drop_first() =~= args_model(args@).skip(i + 1 as int));
    }
    let a = &args[i];
    match a.ident.value {
        None => Err(SemanticError::MissingValue),
        Some(ref s) => {
            if name_declared(seen, seen.len(), s) {
                proof {
                    assert(seen.deep_view().take(seen@.len() as int) =~= seen.deep_view());
                }
                Err(SemanticError::DuplicateArgument { ident: a.ident.clone() })
            } else {
                proof {
                    assert(seen.deep_view().take(seen@.len() as int) =~= seen.deep_view());
                }
                match a.type_ident.value {
                    None => Err(SemanticError::MissingValue),
                    Some(ref ts) => match find_type(types, types.len(), ts) {
                        None => {
                            proof {
                                assert(types.deep_view().take(types@.len() as int)
                                    =~= types.deep_view());
                            }
                            Err(SemanticError::UnknownType { ident: a.type_ident.clone() })
                        },
                        Some(_) => {
                            proof {
                                assert(types.deep_view().take(types@.len() as int)
                                    =~= types.deep_view());
                            }
                            let ghost seen0 = seen.deep_view();
                            seen.push(s.clone());
                            proof {
                                assert(seen.deep_view() =~= seen0.push(s@));
                            }
                            check_args_from(types, args, i + 1, seen)
                        },
                    },
                }
            }
        },
    }
}

impl Checker {
    /// The width an expression result occupies; see [`spec_get_width`].
    fn get_width(&self, form: &ExprForm) -> (r: Result<usize, SemanticError>)
        ensures
            match r {
                Ok(w) => spec_get_width(checker_state(*self).vars, *form) == Ok::<
                    usize,
                    SemanticErrorModel,
                >(w),
                Err(e) => spec_get_width(checker_state(*self).vars, *form) == Err::<
                    usize,
                    SemanticErrorModel,
                >(e@),
            },
    {
        match form {
            ExprForm::Variable { index } => {
                if *index < self.vars.len() {
                    Ok(self.vars[*index].width)
                } else {
                    Err(SemanticError::Internal)
                }
            },
            ExprForm::Expr { inherited_width } => Ok(*inherited_width),
        }
    }

    /// Type unification of two expression results; see
    /// [`type_modes_unify`].
    fn check_type_mode(&self, d1: &ExprData, d2: &ExprData) -> (r: Result<(), SemanticError>)
        ensures
            match r {
                Ok(_) => type_modes_unify(*d1, *d2),
                Err(e) => !type_modes_unify(*d1, *d2) && e@ == SemanticErrorModel::SignMismatch,
            },
    {
        if d1 == d2 {
            return Ok(());
        }
        if matches!(d1.type_mode, TypeMode::IntLit) || matches!(d2.type_mode, TypeMode::IntLit) {
            return Ok(());
        }
        let sign_match = match d1.type_mode {
            TypeMode::Int { signed: s1 } => match d2.type_mode {
                TypeMode::Int { signed: s2 } => s1 == s2,
                TypeMode::Float { signed: s2 } => s1 == s2,
                _ => false,
            },
            TypeMode::Float { signed: s1 } => match d2.type_mode {
                TypeMode::Int { signed: s2 } => s1 == s2,
                TypeMode::Float { signed: s2 } => s1 == s2,
                _ => false,
            },
            _ => false,
        };
        if sign_match {
            Ok(())
        } else {
            Err(SemanticError::SignMismatch)
        }
    }

    /// The checker's result for a leaf; see [`spec_check_term`].
    fn check_term(&self, term: &NodeTerm) -> (r: Result<ExprData, SemanticError>)
        ensures
            match r {
                Ok(d) => spec_check_term(checker_state(*self), term@) == Ok::<
                    ExprData,
                    SemanticErrorModel,
                >(d),
                Err(e) => spec_check_term(checker_state(*self), term@) == Err::<
                    ExprData,
                    SemanticErrorModel,
                >(e@),
            },
    {
        match term {
            NodeTerm::Ident(tok) => match tok.value {
                None => Err(SemanticError::MissingValue),
                Some(ref s) => {
                    proof {
                        assert(self.vars.deep_view().take(self.vars@.len() as int)
                            =~= self.vars.deep_view());
                    }
                    match find_var(&self.vars, self.vars.len(), s) {
                        None => Err(SemanticError::UnknownVariable { ident: tok.clone() }),
                        Some(i) => {
                            let var = &self.vars[i];
                            if var.type_id >= self.types.len() {
                                Err(SemanticError::Internal)
                            } else {
                                match self.types[var.type_id].form {
                                    TypeForm::Base { type_mode } => Ok(
                                        ExprData {
                                            type_mode,
                                            addr_mode: var.addr_mode,
                                            form: ExprForm::Variable { index: i },
                                        },
                                    ),
                                    TypeForm::Struct { .. } => Err(SemanticError::Unimplemented),
                                    TypeForm::Union { .. } => Err(SemanticError::Unimplemented),
                                }
                            }
                        },
                    }
                },
            },
            NodeTerm::IntLit(_) => Ok(
                ExprData {
                    type_mode: TypeMode::IntLit,
                    addr_mode: AddressingMode::Primitive,
                    form: ExprForm::Expr { inherited_width: 0 },
                },
            ),
        }
    }

    /// The checker's result for an expression; see [`spec_check_expr`].
    fn check_expr(&self, expr: &NodeExpr) -> (r: Result<ExprData, SemanticError>)
        ensures
            match r {
                Ok(d) => spec_check_expr(checker_state(*self), expr@) == Ok::<
                    ExprData,
                    SemanticErrorModel,
                >(d),
                Err(e) => spec_check_expr(checker_state(*self), expr@) == Err::<
                    ExprData,
                    SemanticErrorModel,
                >(e@),
            },
        decreases *expr,
    {
        match expr {
            NodeExpr::BinaryExpr { op, lhs, rhs } => {
                let ldata = self.check_expr(lhs)?;
                let rdata = self.check_expr(rhs)?;
                let l_ok = ldata.addr_mode == AddressingMode::Primitive || ldata.addr_mode
                    == AddressingMode::Pointer;
                let r_ok = rdata.addr_mode == AddressingMode::Primitive || rdata.addr_mode
                    == AddressingMode::Pointer;
                let fl = op.get_flags();
                if !(l_ok && r_ok) {
                    return Err(SemanticError::InvalidBinaryAddressing { op: *op });
                }
                if fl.log {
                    // logical operators come first: `&&` and `||` also
                    // carry the comparison flag, and they demand `bool`
                    // on both sides, whatever backs the operands
                    let width = self.get_width(&ldata.form)?;
                    return if ldata.type_mode == TypeMode::Bool && rdata.type_mode
                        == TypeMode::Bool {
                        Ok(
                            ExprData {
                                type_mode: TypeMode::Bool,
                                addr_mode: AddressingMode::Primitive,
                                form: ExprForm::Expr { inherited_width: width },
                            },
                        )
                    } else {
                        Err(SemanticError::BooleanOperand { op: *op })
                    };
                }
                match self.check_type_mode(&ldata, &rdata) {
                    Ok(_) => (),
                    Err(e) => {
                        return Err(e);
                    },
                }
                let width = self.get_width(&ldata.form)?;
                if fl.cmp {
                    Ok(
                        ExprData {
                            type_mode: TypeMode::Bool,
                            addr_mode: AddressingMode::Primitive,
                            form: ExprForm::Expr { inherited_width: width },
                        },
                    )
                } else if fl.arith {
                    match ldata.type_mode {
                        TypeMode::Int { .. } | TypeMode::Float { .. } | TypeMode::IntLit => Ok(
                            ExprData {
                                type_mode: ldata.type_mode,
                                addr_mode: ldata.addr_mode,
                                form: ExprForm::Expr { inherited_width: width },
                            },
                        ),
                        _ => Err(SemanticError::NumericOperand { op: *op }),
                    }
                } else {
                    Err(SemanticError::IllegalBinaryOp { op: *op })
                }
            },
            NodeExpr::UnaryExpr { op, operand } => {
                let checked = self.check_expr(operand)?;
                let inherited_width = self.get_width(&checked.form)?;
                if *op == TokenKind::Tilde {
                    if checked.addr_mode == AddressingMode::Primitive {
                        Ok(checked)
                    } else {
                        Err(SemanticError::PrimitiveOperand { op: *op })
                    }
                } else if *op == TokenKind::Sub {
                    match checked.type_mode {
                        TypeMode::Int { signed } => {
                            if signed {
                                Ok(
                                    ExprData {
                                        type_mode: TypeMode::Int { signed },
                                        addr_mode: AddressingMode::Primitive,
                                        form: ExprForm::Expr { inherited_width },
                                    },
                                )
                            } else {
                                Err(SemanticError::SignedOperand { op: *op })
                            }
                        },
                        TypeMode::Float { signed } => {
                            if signed {
                                Ok(
                                    ExprData {
                                        type_mode: TypeMode::Int { signed },
                                        addr_mode: AddressingMode::Primitive,
                                        form: ExprForm::Expr { inherited_width },
                                    },
                                )
                            } else {
                                Err(SemanticError::SignedOperand { op: *op })
                            }
                        },
                        TypeMode::IntLit => Ok(
                            ExprData {
                                type_mode: TypeMode::Int { signed: true },
                                addr_mode: AddressingMode::Primitive,
                                form: ExprForm::Expr { inherited_width },
                            },
                        ),
                        _ => Err(SemanticError::SignedOperand { op: *op }),
                    }
                } else if *op == TokenKind::CmpNot {
                    if checked.type_mode == TypeMode::Bool {
                        Ok(
                            ExprData {
                                type_mode: TypeMode::Bool,
                                addr_mode: AddressingMode::Primitive,
                                form: ExprForm::Expr { inherited_width },
                            },
                        )
                    } else {
                        Err(SemanticError::BooleanOperand { op: *op })
                    }
                } else if *op == TokenKind::Ampersand {
                    if checked.addr_mode == AddressingMode::Primitive {
                        match checked.form {
                            ExprForm::Variable { .. } => Ok(
                                ExprData {
                                    type_mode: checked.type_mode,
                                    addr_mode: AddressingMode::Pointer,
                                    form: ExprForm::Expr { inherited_width: 8 },
                                },
                            ),
                            _ => Err(SemanticError::AddressableOperand { op: *op }),
                        }
                    } else {
                        Err(SemanticError::AddressableOperand { op: *op })
                    }
                } else if *op == TokenKind::Ptr {
                    if checked.addr_mode == AddressingMode::Pointer {
                        Ok(
                            ExprData {
                                type_mode: checked.type_mode,
                                addr_mode: AddressingMode::Primitive,
                                form: ExprForm::Expr { inherited_width },
                            },
                        )
                    } else {
                        Err(SemanticError::PointerOperand { op: *op })
                    }
                } else {
                    Err(SemanticError::IllegalUnaryOp { op: *op })
                }
            },
            NodeExpr::Term(t) => self.check_term(t),
        }
    }

    /// Assignment coercion; see [`spec_check_assign`]. `var_index` is the
    /// destination's slot, or the stack's length for a fresh declaration.
    fn check_assign(&self, var: &SemVariable, var_index: usize, checked: &ExprData) -> (r: Result<
        (),
        SemanticError,
    >)
        ensures
            match r {
                Ok(_) => spec_check_assign(
                    checker_state(*self),
                    var@,
                    var_index as int,
                    *checked,
                ) is Ok,
                Err(e) => spec_check_assign(checker_state(*self), var@, var_index as int, *checked)
                    == Err::<(), SemanticErrorModel>(e@),
            },
    {
        if var.addr_mode != checked.addr_mode {
            return Err(SemanticError::AddressingMismatch);
        }
        if var.type_id >= self.types.len() {
            return Err(SemanticError::Internal);
        }
        match self.types[var.type_id].form {
            TypeForm::Base { type_mode } => {
                let temp = ExprData {
                    type_mode,
                    addr_mode: var.addr_mode,
                    form: ExprForm::Variable { index: var_index },
                };
                match self.check_type_mode(&temp, checked) {
                    Ok(_) => (),
                    Err(e) => {
                        return Err(e);
                    },
                }
                let expr_width = self.get_width(&checked.form)?;
                if expr_width > var.width {
                    Err(
                        SemanticError::NarrowingAssign {
                            ident: var.ident.clone(),
                            var_width: var.width,
                            expr_width,
                        },
                    )
                } else {
                    Ok(())
                }
            },
            TypeForm::Struct { .. } => Err(SemanticError::Unimplemented),
            TypeForm::Union { .. } => Err(SemanticError::Unimplemented),
        }
    }

    /// One statement checked and rewritten; see [`spec_check_stmt`].
    #[verifier::rlimit(100)]
    fn check_stmt(&mut self, stmt: NodeStmt) -> (r: Result<NodeStmt, SemanticError>)
        ensures
            match r {
                Ok(node) => spec_check_stmt(checker_state(*old(self)), stmt@) == (CRes::Checked {
                    v: node@,
                    st: checker_state(*final(self)),
                }),
                Err(e) => spec_check_stmt(checker_state(*old(self)), stmt@) == CRes::Fail::<
                    StmtModel,
                >(e@),
            },
        decreases stmt,
    {
        let ghost st0 = checker_state(*self);
        match stmt {
            NodeStmt::VarDecl { init_expr, ident, type_ident, mutable, ptr } => {
                proof {
                    assert(self.vars.deep_view().take(self.vars@.len() as int)
                        =~= self.vars.deep_view());
                    assert(self.types.deep_view().take(self.types@.len() as int)
                        =~= self.types.deep_view());
                }
                let tid_r: Result<usize, SemanticError> = match ident.value {
                    None => Err(SemanticError::MissingValue),
                    Some(ref s) => {
                        if find_var(&self.vars, self.vars.len(), s).is_some() {
                            Err(SemanticError::DuplicateVariable { ident: ident.clone() })
                        } else if find_type(&self.types, self.types.len(), s).is_some() {
                            Err(SemanticError::ReservedTypeName { ident: ident.clone() })
                        } else {
                            match type_ident.value {
                                None => Err(SemanticError::MissingValue),
                                Some(ref ts) => match find_type(&self.types, self.types.len(), ts) {
                                    None => Err(
                                        SemanticError::UnknownType { ident: type_ident.clone() },
                                    ),
                                    Some(tid) => Ok(tid),
                                },
                            }
                        }
                    },
                };
                let type_id = match tid_r {
                    Ok(t) => t,
                    Err(e) => {
                        return Err(e);
                    },
                };
                let width = if ptr {
                    8
                } else {
                    self.types[type_id].width
                };
                let addr_mode = if ptr {
                    AddressingMode::Pointer
                } else {
                    AddressingMode::Primitive
                };
                let ghost vars0 = self.vars.deep_view();
                let entry = SemVariable {
                    width,
                    mutable,
                    ident: ident.clone(),
                    type_id,
                    addr_mode,
                    init_expr: None,
                };
                self.vars.push(entry);
                proof {
                    assert(self.vars.deep_view() =~= vars0.push(
                        SemVariableModel {
                            width,
                            mutable,
                            ident: ident@,
                            type_id,
                            addr_mode,
                            init_expr: None,
                        },
                    ));
                }
                let var = SemVariable { width, mutable, ident, type_id, addr_mode, init_expr };
                match var.init_expr {
                    Some(ref e) => {
                        let checked = match self.check_expr(e) {
                            Ok(d) => d,
                            Err(er) => {
                                return Err(er);
                            },
                        };
                        match self.check_assign(&var, self.vars.len(), &checked) {
                            Ok(_) => (),
                            Err(er) => {
                                return Err(er);
                            },
                        }
                    },
                    None => (),
                }
                Ok(NodeStmt::VarSemantics(var))
            },
            NodeStmt::If { condition, scope, branches } => {
                let d = self.check_expr(&condition)?;
                if d.type_mode != TypeMode::Bool {
                    return Err(SemanticError::NonBooleanCondition);
                }
                let new_branches = self.check_stmts(branches)?;
                let new_scope = self.check_scope(scope)?;
                Ok(NodeStmt::If { condition, scope: new_scope, branches: new_branches })
            },
            NodeStmt::FnDecl { ident, args, scope, ret_type_tok } => {
                proof {
                    assert(self.fn_set.deep_view().take(self.fn_set@.len() as int)
                        =~= self.fn_set.deep_view());
                    assert(self.types.deep_view().take(self.types@.len() as int)
                        =~= self.types.deep_view());
                }
                let name = match ident.value {
                    None => {
                        return Err(SemanticError::MissingValue);
                    },
                    Some(ref s) => {
                        if name_declared(&self.fn_set, self.fn_set.len(), s) {
                            return Err(SemanticError::DuplicateFunction { ident: ident.clone() });
                        }
                        if find_type(&self.types, self.types.len(), s).is_some() {
                            return Err(SemanticError::ReservedTypeName { ident: ident.clone() });
                        }
                        s.clone()
                    },
                };
                let mut seen: Vec<String> = Vec::new();
                proof {
                    assert(args_model(args@).skip(0) =~= args_model(args@));
                    assert(seen.deep_view() =~= Seq::<Seq<char>>::empty());
                }
                match check_args_from(&self.types, &args, 0, &mut seen) {
                    Ok(_) => (),
                    Err(e) => {
                        return Err(e);
                    },
                }
                match ret_type_tok {
                    Some(ref t) => match t.value {
                        None => {
                            return Err(SemanticError::MissingValue);
                        },
                        Some(ref rs) => {
                            if find_type(&self.types, self.types.len(), rs).is_none() {
                                return Err(SemanticError::UnknownType { ident: t.clone() });
                            }
                        },
                    },
                    None => {
                        let v = String::from_str("void");
                        if find_type(&self.types, self.types.len(), &v).is_none() {
                            return Err(SemanticError::UnknownType { ident: ident.clone() });
                        }
                    },
                }
                proof {
                    lemma_stmts_model_index(scope.stmts@);
                }
                if scope.stmts.len() == 0 {
                    if ret_type_tok.is_some() {
                        return Err(SemanticError::MissingReturn);
                    }
                } else {
                    match &scope.stmts[scope.stmts.len() - 1] {
                        NodeStmt::If { .. } => (),
                        NodeStmt::Return(oe) => match oe {
                            Some(e) => {
                                self.check_expr(e)?;
                            },
                            None => {
                                if ret_type_tok.is_some() {
                                    return Err(SemanticError::MismatchedReturn);
                                }
                            },
                        },
                        _ => {
                            return Err(SemanticError::MissingReturn);
                        },
                    }
                }
                let ghost fns0 = self.fn_set.deep_view();
                self.fn_set.push(name);
                proof {
                    assert(self.fn_set.deep_view() =~= fns0.push(
                        match stmt@->FnDecl_ident.value {
                            Some(n) => n,
                            None => Seq::empty(),
                        },
                    ));
                }
                Ok(NodeStmt::FnSemantics(SemFn {  }))
            },
            NodeStmt::ElseIf { condition, scope } => {
                let d = self.check_expr(&condition)?;
                if d.type_mode != TypeMode::Bool {
                    return Err(SemanticError::NonBooleanCondition);
                }
                let new_scope = self.check_scope(scope)?;
                Ok(NodeStmt::ElseIf { condition, scope: new_scope })
            },
            NodeStmt::Else(scope) => {
                let new_scope = self.check_scope(scope)?;
                Ok(NodeStmt::Else(new_scope))
            },
            NodeStmt::While { condition, scope } => {
                if self.loop_count == u64::MAX {
                    return Err(SemanticError::Internal);
                }
                self.loop_count = self.loop_count + 1;
                self.check_expr(&condition)?;
                let new_scope = self.check_scope(scope)?;
                if self.loop_count == 0 {
                    return Err(SemanticError::Internal);
                }
                self.loop_count = self.loop_count - 1;
                Ok(NodeStmt::While { condition, scope: new_scope })
            },
            NodeStmt::Assign { ident, expr } => {
                proof {
                    assert(self.vars.deep_view().take(self.vars@.len() as int)
                        =~= self.vars.deep_view());
                }
                let i = match ident.value {
                    None => {
                        return Err(SemanticError::MissingValue);
                    },
                    Some(ref s) => match find_var(&self.vars, self.vars.len(), s) {
                        None => {
                            return Err(SemanticError::UnknownVariable { ident: ident.clone() });
                        },
                        Some(i) => i,
                    },
                };
                if !self.vars[i].mutable {
                    return Err(SemanticError::AssignToConstant { ident });
                }
                let checked = self.check_expr(&expr)?;
                match self.check_assign(&self.vars[i], i, &checked) {
                    Ok(_) => (),
                    Err(e) => {
                        return Err(e);
                    },
                }
                Ok(NodeStmt::Assign { ident, expr })
            },
            NodeStmt::Exit(expr) => {
                self.check_expr(&expr)?;
                Ok(NodeStmt::Exit(expr))
            },
            NodeStmt::NakedScope(scope) => {
                let new_scope = self.check_scope(scope)?;
                Ok(NodeStmt::NakedScope(new_scope))
            },
            NodeStmt::Break => {
                if self.loop_count == 0 {
                    return Err(SemanticError::NotInLoop);
                }
                Ok(NodeStmt::Break)
            },
            NodeStmt::Return(oe) => {
                match oe {
                    Some(ref e) => {
                        self.check_expr(e)?;
                    },
                    None => (),
                }
                Ok(NodeStmt::Return(oe))
            },
            NodeStmt::VarSemantics(_) => Err(SemanticError::UnexpectedSemantics),
            NodeStmt::FnSemantics(_) => Err(SemanticError::UnexpectedSemantics),
        }
    }

    /// A statement list checked in order; see [`spec_check_stmts`].
    fn check_stmts(&mut self, stmts: Vec<NodeStmt>) -> (r: Result<Vec<NodeStmt>, SemanticError>)
        ensures
            match r {
                Ok(v) => spec_check_stmts(checker_state(*old(self)), stmts_model(stmts@)) == (
                CRes::Checked { v: stmts_model(v@), st: checker_state(*final(self)) }),
                Err(e) => spec_check_stmts(checker_state(*old(self)), stmts_model(stmts@))
                    == CRes::Fail::<Seq<StmtModel>>(e@),
            },
        decreases stmts@,
    {
        let ghost l0 = stmts_model(stmts@);
        if stmts.len() == 0 {
            let empty: Vec<NodeStmt> = Vec::new();
            proof {
                assert(stmts_model(empty@) =~= Seq::<StmtModel>::empty());
            }
            return Ok(empty);
        }
        let mut stmts = stmts;
        let ghost v0 = stmts@;
        let s = stmts.remove(0);
        proof {
            assert(stmts@ =~= v0.drop_first());
            assert(l0[0] == stmt_model(s));
            assert(l0.drop_first() =~= stmts_model(stmts@));
        }
        let s2 = self.check_stmt(s)?;
        let rest = self.check_stmts(stmts)?;
        let mut out = rest;
        let ghost out0 = out@;
        out.insert(0, s2);
        proof {
            assert(out@.drop_first() =~= out0);
            assert(stmts_model(out@) =~= seq![stmt_model(out@[0])] + stmts_model(out0));
        }
        Ok(out)
    }

    /// A scope checked, its variables popped again at its end; see
    /// [`spec_check_scope`].
    fn check_scope(&mut self, scope: NodeScope) -> (r: Result<NodeScope, SemanticError>)
        ensures
            match r {
                Ok(sc) => spec_check_scope(checker_state(*old(self)), scope@) == (CRes::Checked {
                    v: sc@,
                    st: checker_state(*final(self)),
                }),
                Err(e) => spec_check_scope(checker_state(*old(self)), scope@) == CRes::Fail::<
                    ScopeModel,
                >(e@),
            },
        decreases scope,
    {
        let var_count = self.vars.len();
        let NodeScope { stmts, inherits_stmts: _ } = scope;
        let stmts2 = self.check_stmts(stmts)?;
        let ghost mid = self.vars.deep_view();
        let ghost lc_mid = self.loop_count;
        let ghost types_mid = self.types.deep_view();
        let ghost fns_mid = self.fn_set.deep_view();
        while self.vars.len() > var_count
            invariant
                self.loop_count == lc_mid,
                self.types.deep_view() =~= types_mid,
                self.fn_set.deep_view() =~= fns_mid,
                self.vars.deep_view() =~= mid.take(self.vars@.len() as int),
                self.vars@.len() <= mid.len(),
                var_count as int <= mid.len() ==> var_count <= self.vars@.len(),
                mid.len() < var_count as int ==> self.vars@.len() as int == mid.len(),
            decreases self.vars@.len(),
        {
            let ghost before = self.vars.deep_view();
            let popped = self.vars.pop();
            proof {
                assert(self.vars.deep_view() =~= before.drop_last());
                assert(before =~= mid.take(before.len() as int));
                assert(before.drop_last() =~= mid.take(before.len() - 1));
                assert(self.vars.deep_view() =~= mid.take(self.vars@.len() as int));
            }
        }
        proof {
            if var_count as int <= mid.len() {
                assert(self.vars.deep_view() =~= mid.take(var_count as int));
            } else {
                assert(self.vars.deep_view() =~= mid);
            }
        }
        Ok(NodeScope { stmts: stmts2, inherits_stmts: true })
    }

    /// Checks a whole program from the fixed initial type registry: the
    /// semantically-annotated tree and the final registry, or the first
    /// rule violation; see [`spec_check_ast`].
    pub fn check_ast(ast: AST) -> (r: Result<HandoffData, SemanticError>)
        ensures
            match r {
                Ok(h) => spec_check_ast(ast@) == Ok::<
                    (Seq<StmtModel>, Seq<TypeModel>),
                    SemanticErrorModel,
                >((h@.ast.stmts, h@.types)),
                Err(e) => spec_check_ast(ast@) == Err::<
                    (Seq<StmtModel>, Seq<TypeModel>),
                    SemanticErrorModel,
                >(e@),
            },
    {
        let mut types: Vec<Type> = Vec::new();
        types.push(Type { width: 0, ident: String::from_str("void"), form: TypeForm::Base { type_mode: TypeMode::Void } });
        types.push(Type { width: 1, ident: String::from_str("bool"), form: TypeForm::Base { type_mode: TypeMode::Bool } });
        types.push(Type { width: 1, ident: String::from_str("u8"), form: TypeForm::Base { type_mode: TypeMode::Int { signed: false } } });
        types.push(Type { width: 2, ident: String::from_str("u16"), form: TypeForm::Base { type_mode: TypeMode::Int { signed: false } } });
        types.push(Type { width: 4, ident: String::from_str("u32"), form: TypeForm::Base { type_mode: TypeMode::Int { signed: false } } });
        types.push(Type { width: 8, ident: String::from_str("u64"), form: TypeForm::Base { type_mode: TypeMode::Int { signed: false } } });
        types.push(Type { width: 8, ident: String::from_str("usize"), form: TypeForm::Base { type_mode: TypeMode::Int { signed: false } } });
        types.push(Type { width: 1, ident: String::from_str("i8"), form: TypeForm::Base { type_mode: TypeMode::Int { signed: true } } });
        types.push(Type { width: 2, ident: String::from_str("i16"), form: TypeForm::Base { type_mode: TypeMode::Int { signed: true } } });
        types.push(Type { width: 4, ident: String::from_str("i32"), form: TypeForm::Base { type_mode: TypeMode::Int { signed: true } } });
        types.push(Type { width: 8, ident: String::from_str("i64"), form: TypeForm::Base { type_mode: TypeMode::Int { signed: true } } });
        types.push(Type { width: 8, ident: String::from_str("isize"), form: TypeForm::Base { type_mode: TypeMode::Int { signed: true } } });
        types.push(Type { width: 4, ident: String::from_str("f32"), form: TypeForm::Base { type_mode: TypeMode::Float { signed: true } } });
        types.push(Type { width: 8, ident: String::from_str("f64"), form: TypeForm::Base { type_mode: TypeMode::Float { signed: true } } });
        proof {
            assert(types.deep_view() =~= initial_types());
        }
        let mut checker = Checker {
            loop_count: 0,
            types,
            vars: Vec::new(),
            fn_set: Vec::new(),
        };
        proof {
            assert(checker.vars.deep_view() =~= Seq::<SemVariableModel>::empty());
            assert(checker.fn_set.deep_view() =~= Seq::<Seq<char>>::empty());
        }
        let AST { stmts } = ast;
        let stmts2 = match checker.check_stmts(stmts) {
            Ok(v) => v,
            Err(e) => {
                return Err(e);
            },
        };
        Ok(HandoffData { ast: AST { stmts: stmts2 }, types: checker.types })
    }
}

} // verus!
