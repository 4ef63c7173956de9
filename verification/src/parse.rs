//! Syntax analysis: tokens to an abstract syntax tree.
//!
//! A recursive-descent parser with precedence climbing. Statements are
//! dispatched on the lookahead token; expressions thread a minimum
//! precedence through recursive calls, with one token of lookahead to
//! tell the dual-role operators' unary and binary readings apart.
//! Compound assignments are desugared while parsing: the operator token
//! is rewritten in place to its plain counterpart and the right-hand side
//! is re-parsed as an ordinary expression starting at the destination.

use vstd::prelude::*;
use crate::lex::{Token, TokenKind, TokenModel, TokenFlags, flags_of, binary_prec_of, unary_prec_of, arith_of_assign, associativity_of, Associativity};
use crate::errors::{SyntaxError, SyntaxErrorModel};
use crate::semantic::{SemVariable, SemVariableModel, SemFn, sem_variable_model};

verus! {

/// The whole program: its top-level statements in order.
#[derive(Debug, PartialEq)]
pub struct AST {
    pub stmts: Vec<NodeStmt>,
}

/// A brace-delimited block of statements.
#[derive(Debug, PartialEq)]
pub struct NodeScope {
    pub stmts: Vec<NodeStmt>,
    pub inherits_stmts: bool,
}

/// One declared function parameter: its name and its type's name.
#[derive(Debug, PartialEq)]
pub struct Arg {
    pub ident: Token,
    pub type_ident: Token,
}

/// One statement, as parsed; the two `*Semantics` variants replace their
/// syntax-only predecessors when the checker rewrites the tree.
#[derive(Debug, PartialEq)]
pub enum NodeStmt {
    FnDecl { ident: Token, args: Vec<Arg>, scope: NodeScope, ret_type_tok: Option<Token> },
    VarDecl { init_expr: Option<NodeExpr>, ident: Token, type_ident: Token, mutable: bool, ptr: bool },
    If { condition: NodeExpr, scope: NodeScope, branches: Vec<NodeStmt> },
    ElseIf { condition: NodeExpr, scope: NodeScope },
    Else(NodeScope),
    While { condition: NodeExpr, scope: NodeScope },
    Assign { ident: Token, expr: NodeExpr },
    Exit(NodeExpr),
    NakedScope(NodeScope),
    Break,
    Return(Option<NodeExpr>),
    VarSemantics(SemVariable),
    FnSemantics(SemFn),
}

/// One expression node.
#[derive(Debug, PartialEq)]
pub enum NodeExpr {
    BinaryExpr { op: TokenKind, lhs: Box<NodeExpr>, rhs: Box<NodeExpr> },
    UnaryExpr { op: TokenKind, operand: Box<NodeExpr> },
    Term(NodeTerm),
}

/// A leaf of the expression grammar.
#[derive(Debug, PartialEq)]
pub enum NodeTerm {
    Ident(Token),
    IntLit(Token),
}

// ---------------------------------------------------------------------------
// Models
// ---------------------------------------------------------------------------

/// Mathematical model of an [`Arg`].
pub struct ArgModel {
    pub ident: TokenModel,
    pub type_ident: TokenModel,
}

/// Mathematical model of a [`NodeScope`].
pub struct ScopeModel {
    pub stmts: Seq<StmtModel>,
    pub inherits_stmts: bool,
}

/// Mathematical model of a [`NodeStmt`].
pub enum StmtModel {
    FnDecl { ident: TokenModel, args: Seq<ArgModel>, scope: ScopeModel, ret_type_tok: Option<TokenModel> },
    VarDecl { init_expr: Option<ExprModel>, ident: TokenModel, type_ident: TokenModel, mutable: bool, ptr: bool },
    If { condition: ExprModel, scope: ScopeModel, branches: Seq<StmtModel> },
    ElseIf { condition: ExprModel, scope: ScopeModel },
    Else(ScopeModel),
    While { condition: ExprModel, scope: ScopeModel },
    Assign { ident: TokenModel, expr: ExprModel },
    Exit(ExprModel),
    NakedScope(ScopeModel),
    Break,
    Return(Option<ExprModel>),
    VarSemantics(SemVariableModel),
    FnSemantics(SemFn),
}

/// Mathematical model of a [`NodeExpr`].
pub enum ExprModel {
    BinaryExpr { op: TokenKind, lhs: Box<ExprModel>, rhs: Box<ExprModel> },
    UnaryExpr { op: TokenKind, operand: Box<ExprModel> },
    Term(TermModel),
}

/// Mathematical model of a [`NodeTerm`].
pub enum TermModel {
    Ident(TokenModel),
    IntLit(TokenModel),
}

/// Mathematical model of an [`AST`].
pub struct ASTModel {
    pub stmts: Seq<StmtModel>,
}

/// The model of a term.
pub open spec fn term_model(t: NodeTerm) -> TermModel {
    match t {
        NodeTerm::Ident(tok) => TermModel::Ident(tok@),
        NodeTerm::IntLit(tok) => TermModel::IntLit(tok@),
    }
}

/// The model of an expression.
pub open spec fn expr_model(e: NodeExpr) -> ExprModel
    decreases e,
{
    match e {
        NodeExpr::BinaryExpr { op, lhs, rhs } => ExprModel::BinaryExpr {
            op,
            lhs: Box::new(expr_model(*lhs)),
            rhs: Box::new(expr_model(*rhs)),
        },
        NodeExpr::UnaryExpr { op, operand } => ExprModel::UnaryExpr {
            op,
            operand: Box::new(expr_model(*operand)),
        },
        NodeExpr::Term(t) => ExprModel::Term(term_model(t)),
    }
}

/// The model of one parameter.
pub open spec fn arg_model(a: Arg) -> ArgModel {
    ArgModel { ident: a.ident@, type_ident: a.type_ident@ }
}

/// The models of a parameter list, in order.
pub open spec fn args_model(v: Seq<Arg>) -> Seq<ArgModel> {
    Seq::new(v.len(), |i: int| arg_model(v[i]))
}

/// The model of a statement.
pub open spec fn stmt_model(s: NodeStmt) -> StmtModel
    decreases s,
{
    match s {
        NodeStmt::FnDecl { ident, args, scope, ret_type_tok } => StmtModel::FnDecl {
            ident: ident@,
            args: args_model(args@),
            scope: scope_model(scope),
            ret_type_tok: match ret_type_tok {
                Some(t) => Some(t@),
                None => None,
            },
        },
        NodeStmt::VarDecl { init_expr, ident, type_ident, mutable, ptr } => StmtModel::VarDecl {
            init_expr: match init_expr {
                Some(e) => Some(expr_model(e)),
                None => None,
            },
            ident: ident@,
            type_ident: type_ident@,
            mutable,
            ptr,
        },
        NodeStmt::If { condition, scope, branches } => StmtModel::If {
            condition: expr_model(condition),
            scope: scope_model(scope),
            branches: stmts_model(branches@),
        },
        NodeStmt::ElseIf { condition, scope } => StmtModel::ElseIf {
            condition: expr_model(condition),
            scope: scope_model(scope),
        },
        NodeStmt::Else(scope) => StmtModel::Else(scope_model(scope)),
        NodeStmt::While { condition, scope } => StmtModel::While {
            condition: expr_model(condition),
            scope: scope_model(scope),
        },
        NodeStmt::Assign { ident, expr } => StmtModel::Assign { ident: ident@, expr: expr_model(expr) },
        NodeStmt::Exit(e) => StmtModel::Exit(expr_model(e)),
        NodeStmt::NakedScope(scope) => StmtModel::NakedScope(scope_model(scope)),
        NodeStmt::Break => StmtModel::Break,
        NodeStmt::Return(e) => StmtModel::Return(
            match e {
                Some(e) => Some(expr_model(e)),
                None => None,
            },
        ),
        NodeStmt::VarSemantics(v) => StmtModel::VarSemantics(sem_variable_model(v)),
        NodeStmt::FnSemantics(f) => StmtModel::FnSemantics(f),
    }
}

/// The models of a statement list, in order.
pub open spec fn stmts_model(v: Seq<NodeStmt>) -> Seq<StmtModel>
    decreases v,
{
    if v.len() == 0 {
        Seq::empty()
    } else {
        seq![stmt_model(v[0])] + stmts_model(v.drop_first())
    }
}

/// The model of a scope.
pub open spec fn scope_model(s: NodeScope) -> ScopeModel
    decreases s,
{
    ScopeModel { stmts: stmts_model(s.stmts@), inherits_stmts: s.inherits_stmts }
}

impl View for NodeTerm {
    type V = TermModel;

    open spec fn view(&self) -> TermModel {
        term_model(*self)
    }
}

impl View for NodeExpr {
    type V = ExprModel;

    open spec fn view(&self) -> ExprModel {
        expr_model(*self)
    }
}

impl View for NodeStmt {
    type V = StmtModel;

    open spec fn view(&self) -> StmtModel {
        stmt_model(*self)
    }
}

impl View for NodeScope {
    type V = ScopeModel;

    open spec fn view(&self) -> ScopeModel {
        scope_model(*self)
    }
}

impl View for AST {
    type V = ASTModel;

    open spec fn view(&self) -> ASTModel {
        ASTModel { stmts: stmts_model(self.stmts@) }
    }
}

// ---------------------------------------------------------------------------
// The parser's specification
// ---------------------------------------------------------------------------
//
// Each spec function mirrors one parsing routine over the token models.
// A fuel parameter bounds the recursion depth so the definitions are
// total; `Diverge` marks fuel exhaustion and is never reached from the
// executable parser, whose contracts hold at every sufficient fuel.

/// The parser's abstract state: the token models and the cursor. The
/// tokens are part of the state because compound-assignment desugaring
/// rewrites one of them in place.
pub struct ParseSt {
    pub toks: Seq<TokenModel>,
    pub i: int,
}

/// A parse outcome: a value and the state after it, a syntax error, or
/// fuel exhaustion.
pub enum PRes<T> {
    Parsed { v: T, st: ParseSt },
    Fail(SyntaxErrorModel),
    Diverge,
}

/// The state `n` tokens further along.
pub open spec fn advance(st: ParseSt, n: int) -> ParseSt {
    ParseSt { toks: st.toks, i: st.i + n }
}

/// True when the token under the cursor, `off` ahead, has this kind.
pub open spec fn peek_is_at(st: ParseSt, off: int, kind: TokenKind) -> bool {
    0 <= st.i + off < st.toks.len() && st.toks[st.i + off].kind == kind
}

/// True when the token under the cursor has this kind.
pub open spec fn peek_is(st: ParseSt, kind: TokenKind) -> bool {
    peek_is_at(st, 0, kind)
}

/// Demands a token of this kind under the cursor and steps over it.
pub open spec fn spec_expect(st: ParseSt, kind: TokenKind) -> Result<ParseSt, SyntaxErrorModel> {
    if 0 <= st.i < st.toks.len() {
        if st.toks[st.i].kind == kind {
            Ok(advance(st, 1))
        } else {
            Err(SyntaxErrorModel::UnexpectedToken { expected: kind, found: st.toks[st.i] })
        }
    } else {
        Err(SyntaxErrorModel::UnexpectedEnd)
    }
}

/// True when a token of this kind can begin an operand, which is the one
/// lookahead that separates a binary reading from a prefix-unary one.
pub open spec fn starts_operand(k: TokenKind) -> bool {
    k == TokenKind::IntLit || k == TokenKind::Ident || k == TokenKind::OpenParen
}

/// The statement's required trailing semicolon, where its form asks one.
pub open spec fn spec_end_stmt(m: StmtModel, st: ParseSt, needs_semi: bool) -> PRes<StmtModel> {
    if needs_semi {
        match spec_expect(st, TokenKind::SemiColon) {
            Ok(st2) => PRes::Parsed { v: m, st: st2 },
            Err(e) => PRes::Fail(e),
        }
    } else {
        PRes::Parsed { v: m, st }
    }
}

/// One term: a prefix-unary application, a parenthesized subexpression,
/// or a leaf identifier or integer literal.
pub open spec fn spec_parse_term(st: ParseSt, fuel: nat) -> PRes<ExprModel>
    decreases fuel, 0int,
{
    if fuel == 0 {
        PRes::Diverge
    } else if !(0 <= st.i < st.toks.len()) {
        PRes::Fail(SyntaxErrorModel::UnexpectedEnd)
    } else {
        let tok = st.toks[st.i];
        let st1 = advance(st, 1);
        if flags_of(tok.kind).unary {
            match spec_parse_expr(st1, unary_prec_of(tok.kind) + 1, (fuel - 1) as nat) {
                PRes::Parsed { v: operand, st: st2 } => PRes::Parsed {
                    v: ExprModel::UnaryExpr { op: tok.kind, operand: Box::new(operand) },
                    st: st2,
                },
                PRes::Fail(e) => PRes::Fail(e),
                PRes::Diverge => PRes::Diverge,
            }
        } else if tok.kind == TokenKind::OpenParen {
            match spec_parse_expr(st1, 0, (fuel - 1) as nat) {
                PRes::Parsed { v, st: st2 } => match spec_expect(st2, TokenKind::CloseParen) {
                    Ok(st3) => PRes::Parsed { v, st: st3 },
                    Err(e) => PRes::Fail(e),
                },
                PRes::Fail(e) => PRes::Fail(e),
                PRes::Diverge => PRes::Diverge,
            }
        } else if tok.kind == TokenKind::Ident {
            PRes::Parsed { v: ExprModel::Term(TermModel::Ident(tok)), st: st1 }
        } else if tok.kind == TokenKind::IntLit {
            PRes::Parsed { v: ExprModel::Term(TermModel::IntLit(tok)), st: st1 }
        } else {
            PRes::Fail(SyntaxErrorModel::InvalidTerm { found: tok })
        }
    }
}

/// The precedence climb around an already-built left-hand side: stops
/// below `min_prec`, folds prefix-unary readings into the left side, and
/// recurses to the right of each binary operator.
pub open spec fn spec_parse_expr_loop(lhs: ExprModel, st: ParseSt, min_prec: int, fuel: nat) -> PRes<
    ExprModel,
>
    decreases fuel, 1int,
{
    if fuel == 0 {
        PRes::Diverge
    } else if !(0 <= st.i < st.toks.len()) {
        PRes::Fail(SyntaxErrorModel::UnexpectedEnd)
    } else {
        let op = st.toks[st.i].kind;
        let bin_prec = binary_prec_of(op);
        let un_prec = unary_prec_of(op);
        if bin_prec < min_prec && un_prec < min_prec {
            PRes::Parsed { v: lhs, st }
        } else {
            let is_unary = un_prec >= 0;
            if is_unary && !(st.i + 1 < st.toks.len() && starts_operand(st.toks[st.i + 1].kind)) {
                if st.i + 1 < st.toks.len() {
                    spec_parse_expr_loop(
                        ExprModel::UnaryExpr { op, operand: Box::new(lhs) },
                        advance(st, 1),
                        min_prec,
                        (fuel - 1) as nat,
                    )
                } else {
                    PRes::Fail(SyntaxErrorModel::UnexpectedEnd)
                }
            } else {
                let next_prec = if associativity_of(op, is_unary) == Associativity::Right {
                    bin_prec
                } else {
                    bin_prec + 1
                };
                match spec_parse_expr(advance(st, 1), next_prec, (fuel - 1) as nat) {
                    PRes::Parsed { v: rhs, st: st2 } => spec_parse_expr_loop(
                        ExprModel::BinaryExpr { op, lhs: Box::new(lhs), rhs: Box::new(rhs) },
                        st2,
                        min_prec,
                        (fuel - 1) as nat,
                    ),
                    PRes::Fail(e) => PRes::Fail(e),
                    PRes::Diverge => PRes::Diverge,
                }
            }
        }
    }
}

/// One expression at a minimum precedence: a term, then the climb.
pub open spec fn spec_parse_expr(st: ParseSt, min_prec: int, fuel: nat) -> PRes<ExprModel>
    decreases fuel, 2int,
{
    if fuel == 0 {
        PRes::Diverge
    } else {
        match spec_parse_term(st, fuel) {
            PRes::Parsed { v: lhs, st: st1 } => spec_parse_expr_loop(lhs, st1, min_prec, fuel),
            PRes::Fail(e) => PRes::Fail(e),
            PRes::Diverge => PRes::Diverge,
        }
    }
}

/// The comma-separated parameter list of a function declaration, up to
/// but not including the closing parenthesis.
pub open spec fn spec_parse_args(st: ParseSt, first: bool, fuel: nat) -> PRes<Seq<ArgModel>>
    decreases fuel, 3int,
{
    if fuel == 0 {
        PRes::Diverge
    } else if peek_is(st, TokenKind::CloseParen) {
        PRes::Parsed { v: Seq::empty(), st }
    } else {
        let stc_r = if first {
            Ok(st)
        } else {
            spec_expect(st, TokenKind::Comma)
        };
        match stc_r {
            Err(e) => PRes::Fail(e),
            Ok(stc) => match spec_expect(stc, TokenKind::Ident) {
                Err(e) => PRes::Fail(e),
                Ok(st1) => {
                    let ident = stc.toks[stc.i];
                    match spec_expect(st1, TokenKind::Colon) {
                        Err(e) => PRes::Fail(e),
                        Ok(st2) => match spec_expect(st2, TokenKind::Ident) {
                            Err(e) => PRes::Fail(e),
                            Ok(st3) => {
                                let type_ident = st2.toks[st2.i];
                                match spec_parse_args(st3, false, (fuel - 1) as nat) {
                                    PRes::Parsed { v: rest, st: st4 } => PRes::Parsed {
                                        v: seq![ArgModel { ident, type_ident }] + rest,
                                        st: st4,
                                    },
                                    PRes::Fail(e) => PRes::Fail(e),
                                    PRes::Diverge => PRes::Diverge,
                                }
                            },
                        },
                    }
                },
            },
        }
    }
}

/// A brace-delimited scope: statements until the matching close brace.
pub open spec fn spec_parse_scope(st: ParseSt, fuel: nat) -> PRes<ScopeModel>
    decreases fuel, 4int,
{
    if fuel == 0 {
        PRes::Diverge
    } else {
        match spec_expect(st, TokenKind::OpenBrace) {
            Err(e) => PRes::Fail(e),
            Ok(st1) => match spec_parse_stmts(st1, (fuel - 1) as nat) {
                PRes::Parsed { v: stmts, st: st2 } => PRes::Parsed {
                    v: ScopeModel { stmts, inherits_stmts: true },
                    st: st2,
                },
                PRes::Fail(e) => PRes::Fail(e),
                PRes::Diverge => PRes::Diverge,
            },
        }
    }
}

/// The `else`/`else if` chain after an `if` statement's own scope.
pub open spec fn spec_parse_branches(st: ParseSt, fuel: nat) -> PRes<Seq<StmtModel>>
    decreases fuel, 6int,
{
    if fuel == 0 {
        PRes::Diverge
    } else if !peek_is(st, TokenKind::Else) {
        PRes::Parsed { v: Seq::empty(), st }
    } else {
        let st1 = advance(st, 1);
        if peek_is(st1, TokenKind::If) {
            let st2 = advance(st1, 1);
            match spec_parse_expr(st2, 0, fuel) {
                PRes::Parsed { v: condition, st: st3 } => match spec_parse_scope(st3, fuel) {
                    PRes::Parsed { v: scope, st: st4 } => match spec_parse_branches(
                        st4,
                        (fuel - 1) as nat,
                    ) {
                        PRes::Parsed { v: rest, st: st5 } => PRes::Parsed {
                            v: seq![StmtModel::ElseIf { condition, scope }] + rest,
                            st: st5,
                        },
                        PRes::Fail(e) => PRes::Fail(e),
                        PRes::Diverge => PRes::Diverge,
                    },
                    PRes::Fail(e) => PRes::Fail(e),
                    PRes::Diverge => PRes::Diverge,
                },
                PRes::Fail(e) => PRes::Fail(e),
                PRes::Diverge => PRes::Diverge,
            }
        } else {
            match spec_parse_scope(st1, fuel) {
                PRes::Parsed { v: scope, st: st2 } => PRes::Parsed {
                    v: seq![StmtModel::Else(scope)],
                    st: st2,
                },
                PRes::Fail(e) => PRes::Fail(e),
                PRes::Diverge => PRes::Diverge,
            }
        }
    }
}

/// One statement, dispatched on the lookahead token.
pub open spec fn spec_parse_stmt(st: ParseSt, fuel: nat) -> PRes<StmtModel>
    decreases fuel, 5int,
{
    if fuel == 0 {
        PRes::Diverge
    } else if !(0 <= st.i < st.toks.len()) {
        PRes::Fail(SyntaxErrorModel::UnexpectedEnd)
    } else {
        let kind = st.toks[st.i].kind;
        if kind == TokenKind::Let {
            let st1 = advance(st, 1);
            let mutable = peek_is(st1, TokenKind::Mut);
            let st2 = if mutable {
                advance(st1, 1)
            } else {
                st1
            };
            match spec_expect(st2, TokenKind::Ident) {
                Err(e) => PRes::Fail(e),
                Ok(st3) => {
                    let ident = st2.toks[st2.i];
                    match spec_expect(st3, TokenKind::Colon) {
                        Err(e) => PRes::Fail(e),
                        Ok(st4) => {
                            let ptr = peek_is(st4, TokenKind::Ptr);
                            let st5 = if ptr {
                                advance(st4, 1)
                            } else {
                                st4
                            };
                            match spec_expect(st5, TokenKind::Ident) {
                                Err(e) => PRes::Fail(e),
                                Ok(st6) => {
                                    let type_ident = st5.toks[st5.i];
                                    if peek_is(st6, TokenKind::Eq) {
                                        match spec_parse_expr(advance(st6, 1), 0, fuel) {
                                            PRes::Parsed { v, st: st7 } => spec_end_stmt(
                                                StmtModel::VarDecl {
                                                    init_expr: Some(v),
                                                    ident,
                                                    type_ident,
                                                    mutable,
                                                    ptr,
                                                },
                                                st7,
                                                true,
                                            ),
                                            PRes::Fail(e) => PRes::Fail(e),
                                            PRes::Diverge => PRes::Diverge,
                                        }
                                    } else {
                                        spec_end_stmt(
                                            StmtModel::VarDecl {
                                                init_expr: None,
                                                ident,
                                                type_ident,
                                                mutable,
                                                ptr,
                                            },
                                            st6,
                                            true,
                                        )
                                    }
                                },
                            }
                        },
                    }
                },
            }
        } else if kind == TokenKind::If {
            match spec_parse_expr(advance(st, 1), 0, fuel) {
                PRes::Parsed { v: condition, st: st2 } => match spec_parse_scope(st2, fuel) {
                    PRes::Parsed { v: scope, st: st3 } => match spec_parse_branches(
                        st3,
                        (fuel - 1) as nat,
                    ) {
                        PRes::Parsed { v: branches, st: st4 } => PRes::Parsed {
                            v: StmtModel::If { condition, scope, branches },
                            st: st4,
                        },
                        PRes::Fail(e) => PRes::Fail(e),
                        PRes::Diverge => PRes::Diverge,
                    },
                    PRes::Fail(e) => PRes::Fail(e),
                    PRes::Diverge => PRes::Diverge,
                },
                PRes::Fail(e) => PRes::Fail(e),
                PRes::Diverge => PRes::Diverge,
            }
        } else if kind == TokenKind::Fn {
            let st1 = advance(st, 1);
            match spec_expect(st1, TokenKind::Ident) {
                Err(e) => PRes::Fail(e),
                Ok(st2) => {
                    let ident = st1.toks[st1.i];
                    match spec_expect(st2, TokenKind::OpenParen) {
                        Err(e) => PRes::Fail(e),
                        Ok(st3) => match spec_parse_args(st3, true, fuel) {
                            PRes::Parsed { v: args, st: st4 } => match spec_expect(
                                st4,
                                TokenKind::CloseParen,
                            ) {
                                Err(e) => PRes::Fail(e),
                                Ok(st5) => {
                                    let ret_r = if peek_is(st5, TokenKind::Arrow) {
                                        match spec_expect(advance(st5, 1), TokenKind::Ident) {
                                            Ok(st7) => Ok((Some(st5.toks[st5.i + 1]), st7)),
                                            Err(e) => Err(e),
                                        }
                                    } else {
                                        Ok((None, st5))
                                    };
                                    match ret_r {
                                        Err(e) => PRes::Fail(e),
                                        Ok((ret_type_tok, st6)) => match spec_parse_scope(
                                            st6,
                                            fuel,
                                        ) {
                                            PRes::Parsed { v: scope, st: st7 } => PRes::Parsed {
                                                v: StmtModel::FnDecl {
                                                    ident,
                                                    args,
                                                    scope,
                                                    ret_type_tok,
                                                },
                                                st: st7,
                                            },
                                            PRes::Fail(e) => PRes::Fail(e),
                                            PRes::Diverge => PRes::Diverge,
                                        },
                                    }
                                },
                            },
                            PRes::Fail(e) => PRes::Fail(e),
                            PRes::Diverge => PRes::Diverge,
                        },
                    }
                },
            }
        } else if kind == TokenKind::Return {
            let st1 = advance(st, 1);
            if peek_is(st1, TokenKind::SemiColon) {
                spec_end_stmt(StmtModel::Return(None), st1, true)
            } else {
                match spec_parse_expr(st1, 0, fuel) {
                    PRes::Parsed { v, st: st2 } => spec_end_stmt(StmtModel::Return(Some(v)), st2, true),
                    PRes::Fail(e) => PRes::Fail(e),
                    PRes::Diverge => PRes::Diverge,
                }
            }
        } else if kind == TokenKind::While {
            match spec_parse_expr(advance(st, 1), 0, fuel) {
                PRes::Parsed { v: condition, st: st2 } => match spec_parse_scope(st2, fuel) {
                    PRes::Parsed { v: scope, st: st3 } => PRes::Parsed {
                        v: StmtModel::While { condition, scope },
                        st: st3,
                    },
                    PRes::Fail(e) => PRes::Fail(e),
                    PRes::Diverge => PRes::Diverge,
                },
                PRes::Fail(e) => PRes::Fail(e),
                PRes::Diverge => PRes::Diverge,
            }
        } else if kind == TokenKind::Ident {
            let ident = st.toks[st.i];
            if peek_is_at(st, 1, TokenKind::Eq) {
                match spec_parse_expr(advance(st, 2), 0, fuel) {
                    PRes::Parsed { v, st: st2 } => spec_end_stmt(
                        StmtModel::Assign { ident, expr: v },
                        st2,
                        true,
                    ),
                    PRes::Fail(e) => PRes::Fail(e),
                    PRes::Diverge => PRes::Diverge,
                }
            } else if st.i + 1 < st.toks.len() && flags_of(st.toks[st.i + 1].kind).assign {
                let comp = st.toks[st.i + 1];
                match arith_of_assign(comp.kind) {
                    Some(arith) => {
                        let toks2 = st.toks.update(
                            st.i + 1,
                            TokenModel { kind: arith, value: comp.value, pos: comp.pos },
                        );
                        match spec_parse_expr(ParseSt { toks: toks2, i: st.i }, 0, fuel) {
                            PRes::Parsed { v, st: st2 } => spec_end_stmt(
                                StmtModel::Assign { ident, expr: v },
                                st2,
                                true,
                            ),
                            PRes::Fail(e) => PRes::Fail(e),
                            PRes::Diverge => PRes::Diverge,
                        }
                    },
                    None => PRes::Fail(SyntaxErrorModel::NotCompoundAssign { op: comp.kind }),
                }
            } else {
                PRes::Fail(SyntaxErrorModel::NakedExpression { found: st.toks[st.i] })
            }
        } else if kind == TokenKind::Exit {
            let st1 = advance(st, 1);
            if peek_is(st1, TokenKind::OpenParen) {
                match spec_parse_expr(st1, 0, fuel) {
                    PRes::Parsed { v, st: st2 } => spec_end_stmt(StmtModel::Exit(v), st2, true),
                    PRes::Fail(e) => PRes::Fail(e),
                    PRes::Diverge => PRes::Diverge,
                }
            } else if 0 <= st1.i < st1.toks.len() {
                PRes::Fail(
                    SyntaxErrorModel::UnexpectedToken {
                        expected: TokenKind::OpenParen,
                        found: st1.toks[st1.i],
                    },
                )
            } else {
                PRes::Fail(SyntaxErrorModel::UnexpectedEnd)
            }
        } else if kind == TokenKind::Break {
            spec_end_stmt(StmtModel::Break, advance(st, 1), true)
        } else if kind == TokenKind::OpenBrace {
            match spec_parse_scope(st, fuel) {
                PRes::Parsed { v, st: st2 } => PRes::Parsed { v: StmtModel::NakedScope(v), st: st2 },
                PRes::Fail(e) => PRes::Fail(e),
                PRes::Diverge => PRes::Diverge,
            }
        } else {
            PRes::Fail(SyntaxErrorModel::InvalidStatement { found: st.toks[st.i] })
        }
    }
}

/// The statements of a scope body, up to and over the close brace.
pub open spec fn spec_parse_stmts(st: ParseSt, fuel: nat) -> PRes<Seq<StmtModel>>
    decreases fuel, 6int,
{
    if fuel == 0 {
        PRes::Diverge
    } else if peek_is(st, TokenKind::CloseBrace) {
        PRes::Parsed { v: Seq::empty(), st: advance(st, 1) }
    } else {
        match spec_parse_stmt(st, fuel) {
            PRes::Parsed { v, st: st2 } => match spec_parse_stmts(st2, (fuel - 1) as nat) {
                PRes::Parsed { v: rest, st: st3 } => PRes::Parsed { v: seq![v] + rest, st: st3 },
                PRes::Fail(e) => PRes::Fail(e),
                PRes::Diverge => PRes::Diverge,
            },
            PRes::Fail(e) => PRes::Fail(e),
            PRes::Diverge => PRes::Diverge,
        }
    }
}

/// The whole program: statements until the tokens are exhausted.
pub open spec fn spec_parse_ast(st: ParseSt, fuel: nat) -> PRes<Seq<StmtModel>>
    decreases fuel, 7int,
{
    if fuel == 0 {
        PRes::Diverge
    } else if st.i >= st.toks.len() {
        PRes::Parsed { v: Seq::empty(), st }
    } else {
        match spec_parse_stmt(st, fuel) {
            PRes::Parsed { v, st: st2 } => match spec_parse_ast(st2, (fuel - 1) as nat) {
                PRes::Parsed { v: rest, st: st3 } => PRes::Parsed { v: seq![v] + rest, st: st3 },
                PRes::Fail(e) => PRes::Fail(e),
                PRes::Diverge => PRes::Diverge,
            },
            PRes::Fail(e) => PRes::Fail(e),
            PRes::Diverge => PRes::Diverge,
        }
    }
}

// ---------------------------------------------------------------------------
// The parser
// ---------------------------------------------------------------------------

/// The recursive-descent parser: the token stream and a cursor into it.
pub struct Parser {
    pub tokens: Vec<Token>,
    pub idx: usize,
}

/// The abstract state of a parser.
pub open spec fn parser_state(p: Parser) -> ParseSt {
    ParseSt { toks: p.tokens.deep_view(), i: p.idx as int }
}

/// How many tokens are left under the cursor.
pub open spec fn rem_of(p: Parser) -> int {
    p.tokens.deep_view().len() - p.idx
}

impl Parser {
    /// A parser over these tokens, with the cursor at the start.
    pub fn new(input: Vec<Token>) -> (r: Parser)
        ensures
            r.tokens@ == input@,
            r.idx == 0,
    {
        Parser { tokens: input, idx: 0 }
    }

    /// The token `offset` places ahead of the cursor, if any.
    fn peek(&self, offset: usize) -> (r: Option<&Token>)
        ensures
            match r {
                Some(t) => self.idx + offset < self.tokens@.len() && *t == self.tokens@[self.idx
                    + offset],
                None => self.idx + offset >= self.tokens@.len(),
            },
    {
        if self.tokens.len() > offset && self.idx < self.tokens.len() - offset {
            Some(&self.tokens[self.idx + offset])
        } else {
            None
        }
    }

    /// Steps over the token under the cursor and returns it.
    fn consume(&mut self) -> (r: Token)
        requires
            old(self).idx < old(self).tokens@.len(),
        ensures
            final(self).tokens@ == old(self).tokens@,
            final(self).idx == old(self).idx + 1,
            r@ == parser_state(*old(self)).toks[old(self).idx as int],
    {
        let n = self.tokens.len();
        let t = self.tokens[self.idx].clone();
        assert(self.idx < n);
        self.idx = self.idx + 1;
        t
    }

    /// Checks the kind of the token `offset` places ahead, without moving.
    fn token_equals(&self, kind: TokenKind, offset: usize) -> (r: Result<(), SyntaxError>)
        ensures
            match r {
                Ok(_) => peek_is_at(parser_state(*self), offset as int, kind),
                Err(e) => !peek_is_at(parser_state(*self), offset as int, kind) && e@ == (
                if self.idx + offset < self.tokens@.len() {
                    SyntaxErrorModel::UnexpectedToken {
                        expected: kind,
                        found: parser_state(*self).toks[self.idx + offset],
                    }
                } else {
                    SyntaxErrorModel::UnexpectedEnd
                }),
            },
    {
        match self.peek(offset) {
            Some(t) => {
                if t.kind == kind {
                    Ok(())
                } else {
                    Err(SyntaxError::UnexpectedToken { expected: kind, found: t.clone() })
                }
            },
            None => Err(SyntaxError::UnexpectedEnd),
        }
    }

    /// Demands a token of this kind under the cursor, steps over it and
    /// returns it.
    fn expect(&mut self, kind: TokenKind) -> (r: Result<Token, SyntaxError>)
        requires
            old(self).idx <= old(self).tokens@.len(),
        ensures
            final(self).tokens@ == old(self).tokens@,
            final(self).idx <= final(self).tokens@.len(),
            old(self).idx <= final(self).idx,
            match r {
                Ok(t) => spec_expect(parser_state(*old(self)), kind) == Ok::<
                    ParseSt,
                    SyntaxErrorModel,
                >(parser_state(*final(self))) && t@ == parser_state(*old(self)).toks[old(
                    self,
                ).idx as int] && final(self).idx == old(self).idx + 1,
                Err(e) => spec_expect(parser_state(*old(self)), kind) == Err::<
                    ParseSt,
                    SyntaxErrorModel,
                >(e@) && *final(self) == *old(self),
            },
    {
        if self.idx < self.tokens.len() {
            if self.tokens[self.idx].kind == kind {
                Ok(self.consume())
            } else {
                Err(
                    SyntaxError::UnexpectedToken {
                        expected: kind,
                        found: self.tokens[self.idx].clone(),
                    },
                )
            }
        } else {
            Err(SyntaxError::UnexpectedEnd)
        }
    }

    /// One term; see [`spec_parse_term`].
    fn parse_term(&mut self) -> (r: Result<NodeExpr, SyntaxError>)
        requires
            old(self).idx <= old(self).tokens@.len(),
        ensures
            final(self).tokens@.len() == old(self).tokens@.len(),
            final(self).idx <= final(self).tokens@.len(),
            old(self).idx <= final(self).idx,
            match r {
                Ok(node) => old(self).idx < final(self).idx && (forall|fuel: nat|
                    fuel > rem_of(*old(self)) ==> spec_parse_term(
                        parser_state(*old(self)),
                        fuel,
                    ) == (PRes::Parsed { v: node@, st: parser_state(*final(self)) })),
                Err(e) => forall|fuel: nat|
                    fuel > rem_of(*old(self)) ==> spec_parse_term(parser_state(*old(self)), fuel)
                        == PRes::Fail::<ExprModel>(e@),
            },
        decreases self.tokens@.len() - self.idx, 0int,
    {
        let ghost st0 = parser_state(*self);
        let ghost rem0 = rem_of(*self);
        if self.idx >= self.tokens.len() {
            return Err(SyntaxError::UnexpectedEnd);
        }
        let tok = self.consume();
        let ghost st1 = parser_state(*self);
        if tok.kind.has_flags(TokenFlags::unary()) {
            let prec = tok.kind.get_prec_unary();
            assert(prec == 13);
            let operand = match self.parse_expr(prec + 1) {
                Ok(v) => v,
                Err(e) => {
                    proof {
                        assert forall|fuel: nat| fuel > rem0 implies spec_parse_term(st0, fuel)
                            == PRes::Fail::<ExprModel>(e@) by {
                            assert(spec_parse_expr(st1, prec + 1, (fuel - 1) as nat)
                                == PRes::Fail::<ExprModel>(e@));
                        }
                    }
                    return Err(e);
                },
            };
            let node = NodeExpr::UnaryExpr { op: tok.kind, operand: Box::new(operand) };
            proof {
                let stf = parser_state(*self);
                assert forall|fuel: nat| fuel > rem0 implies spec_parse_term(st0, fuel)
                    == (PRes::Parsed { v: node@, st: stf }) by {
                    assert(spec_parse_expr(st1, prec + 1, (fuel - 1) as nat) == (PRes::Parsed {
                        v: operand@,
                        st: stf,
                    }));
                }
            }
            Ok(node)
        } else if tok.kind == TokenKind::OpenParen {
            let expr = match self.parse_expr(0) {
                Ok(v) => v,
                Err(e) => {
                    proof {
                        assert forall|fuel: nat| fuel > rem0 implies spec_parse_term(st0, fuel)
                            == PRes::Fail::<ExprModel>(e@) by {
                            assert(spec_parse_expr(st1, 0, (fuel - 1) as nat) == PRes::Fail::<
                                ExprModel,
                            >(e@));
                        }
                    }
                    return Err(e);
                },
            };
            let ghost st2 = parser_state(*self);
            match self.expect(TokenKind::CloseParen) {
                Ok(_) => {
                    proof {
                        let stf = parser_state(*self);
                        assert forall|fuel: nat| fuel > rem0 implies spec_parse_term(st0, fuel)
                            == (PRes::Parsed { v: expr@, st: stf }) by {
                            assert(spec_parse_expr(st1, 0, (fuel - 1) as nat) == (PRes::Parsed {
                                v: expr@,
                                st: st2,
                            }));
                        }
                    }
                    Ok(expr)
                },
                Err(e) => {
                    proof {
                        assert forall|fuel: nat| fuel > rem0 implies spec_parse_term(st0, fuel)
                            == PRes::Fail::<ExprModel>(e@) by {
                            assert(spec_parse_expr(st1, 0, (fuel - 1) as nat) == (PRes::Parsed {
                                v: expr@,
                                st: st2,
                            }));
                        }
                    }
                    Err(e)
                },
            }
        } else if tok.kind == TokenKind::Ident {
            Ok(NodeExpr::Term(NodeTerm::Ident(tok)))
        } else if tok.kind == TokenKind::IntLit {
            Ok(NodeExpr::Term(NodeTerm::IntLit(tok)))
        } else {
            Err(SyntaxError::InvalidTerm { found: tok })
        }
    }

    /// The precedence climb; see [`spec_parse_expr_loop`].
    fn parse_expr_loop(&mut self, lhs: NodeExpr, min_prec: i32) -> (r: Result<
        NodeExpr,
        SyntaxError,
    >)
        requires
            old(self).idx <= old(self).tokens@.len(),
        ensures
            final(self).tokens@.len() == old(self).tokens@.len(),
            final(self).idx <= final(self).tokens@.len(),
            old(self).idx <= final(self).idx,
            match r {
                Ok(node) => forall|fuel: nat|
                    fuel > rem_of(*old(self)) ==> spec_parse_expr_loop(
                        lhs@,
                        parser_state(*old(self)),
                        min_prec as int,
                        fuel,
                    ) == (PRes::Parsed { v: node@, st: parser_state(*final(self)) }),
                Err(e) => forall|fuel: nat|
                    fuel > rem_of(*old(self)) ==> spec_parse_expr_loop(
                        lhs@,
                        parser_state(*old(self)),
                        min_prec as int,
                        fuel,
                    ) == PRes::Fail::<ExprModel>(e@),
            },
        decreases self.tokens@.len() - self.idx, 1int,
    {
        let ghost st0 = parser_state(*self);
        let ghost rem0 = rem_of(*self);
        if self.idx >= self.tokens.len() {
            return Err(SyntaxError::UnexpectedEnd);
        }
        let op = self.tokens[self.idx].kind;
        let bin_prec = op.get_prec_binary();
        let un_prec = op.get_prec_unary();
        if bin_prec < min_prec && un_prec < min_prec {
            return Ok(lhs);
        }
        let is_unary = un_prec >= 0;
        if is_unary {
            let next_starts: bool = match self.peek(1) {
                Some(t) => {
                    let k = t.kind;
                    k == TokenKind::IntLit || k == TokenKind::Ident || k == TokenKind::OpenParen
                },
                None => {
                    return Err(SyntaxError::UnexpectedEnd);
                },
            };
            if !next_starts {
                let optok = self.consume();
                let ghost st1 = parser_state(*self);
                let node = NodeExpr::UnaryExpr { op: optok.kind, operand: Box::new(lhs) };
                let r = self.parse_expr_loop(node, min_prec);
                proof {
                    let stf = parser_state(*self);
                    assert forall|fuel: nat| fuel > rem0 implies spec_parse_expr_loop(
                        lhs@,
                        st0,
                        min_prec as int,
                        fuel,
                    ) == (match r {
                        Ok(n) => PRes::Parsed { v: n@, st: stf },
                        Err(e) => PRes::Fail::<ExprModel>(e@),
                    }) by {
                        match r {
                            Ok(n) => {
                                assert(spec_parse_expr_loop(
                                    node@,
                                    st1,
                                    min_prec as int,
                                    (fuel - 1) as nat,
                                ) == (PRes::Parsed { v: n@, st: stf }));
                            },
                            Err(e) => {
                                assert(spec_parse_expr_loop(
                                    node@,
                                    st1,
                                    min_prec as int,
                                    (fuel - 1) as nat,
                                ) == PRes::Fail::<ExprModel>(e@));
                            },
                        }
                    }
                }
                return r;
            }
        }
        let assoc = op.get_associativity(is_unary);
        assert(-100 <= bin_prec <= 12);
        let next_prec = match assoc {
            Associativity::Right => bin_prec,
            Associativity::Left => bin_prec + 1,
        };
        self.consume();
        let ghost st1 = parser_state(*self);
        let rhs = match self.parse_expr(next_prec) {
            Ok(v) => v,
            Err(e) => {
                proof {
                    assert forall|fuel: nat| fuel > rem0 implies spec_parse_expr_loop(
                        lhs@,
                        st0,
                        min_prec as int,
                        fuel,
                    ) == PRes::Fail::<ExprModel>(e@) by {
                        assert(spec_parse_expr(st1, next_prec as int, (fuel - 1) as nat)
                            == PRes::Fail::<ExprModel>(e@));
                    }
                }
                return Err(e);
            },
        };
        let ghost st2 = parser_state(*self);
        let node = NodeExpr::BinaryExpr { op, lhs: Box::new(lhs), rhs: Box::new(rhs) };
        let r = self.parse_expr_loop(node, min_prec);
        proof {
            let stf = parser_state(*self);
            assert forall|fuel: nat| fuel > rem0 implies spec_parse_expr_loop(
                lhs@,
                st0,
                min_prec as int,
                fuel,
            ) == (match r {
                Ok(n) => PRes::Parsed { v: n@, st: stf },
                Err(e) => PRes::Fail::<ExprModel>(e@),
            }) by {
                assert(spec_parse_expr(st1, next_prec as int, (fuel - 1) as nat) == (PRes::Parsed {
                    v: rhs@,
                    st: st2,
                }));
                match r {
                    Ok(n) => {
                        assert(spec_parse_expr_loop(node@, st2, min_prec as int, (fuel - 1) as nat)
                            == (PRes::Parsed { v: n@, st: stf }));
                    },
                    Err(e) => {
                        assert(spec_parse_expr_loop(node@, st2, min_prec as int, (fuel - 1) as nat)
                            == PRes::Fail::<ExprModel>(e@));
                    },
                }
            }
        }
        r
    }

    /// One expression at a minimum precedence; see [`spec_parse_expr`].
    fn parse_expr(&mut self, min_prec: i32) -> (r: Result<NodeExpr, SyntaxError>)
        requires
            old(self).idx <= old(self).tokens@.len(),
        ensures
            final(self).tokens@.len() == old(self).tokens@.len(),
            final(self).idx <= final(self).tokens@.len(),
            old(self).idx <= final(self).idx,
            match r {
                Ok(node) => old(self).idx < final(self).idx && (forall|fuel: nat|
                    fuel > rem_of(*old(self)) ==> spec_parse_expr(
                        parser_state(*old(self)),
                        min_prec as int,
                        fuel,
                    ) == (PRes::Parsed { v: node@, st: parser_state(*final(self)) })),
                Err(e) => forall|fuel: nat|
                    fuel > rem_of(*old(self)) ==> spec_parse_expr(
                        parser_state(*old(self)),
                        min_prec as int,
                        fuel,
                    ) == PRes::Fail::<ExprModel>(e@),
            },
        decreases self.tokens@.len() - self.idx, 2int,
    {
        let ghost st0 = parser_state(*self);
        let ghost rem0 = rem_of(*self);
        let lhs = match self.parse_term() {
            Ok(v) => v,
            Err(e) => {
                proof {
                    assert forall|fuel: nat| fuel > rem0 implies spec_parse_expr(
                        st0,
                        min_prec as int,
                        fuel,
                    ) == PRes::Fail::<ExprModel>(e@) by {
                        assert(spec_parse_term(st0, fuel) == PRes::Fail::<ExprModel>(e@));
                    }
                }
                return Err(e);
            },
        };
        let ghost st1 = parser_state(*self);
        let r = self.parse_expr_loop(lhs, min_prec);
        proof {
            let stf = parser_state(*self);
            assert forall|fuel: nat| fuel > rem0 implies spec_parse_expr(
                st0,
                min_prec as int,
                fuel,
            ) == (match r {
                Ok(n) => PRes::Parsed { v: n@, st: stf },
                Err(e) => PRes::Fail::<ExprModel>(e@),
            }) by {
                assert(spec_parse_term(st0, fuel) == (PRes::Parsed { v: lhs@, st: st1 }));
                match r {
                    Ok(n) => {
                        assert(spec_parse_expr_loop(lhs@, st1, min_prec as int, fuel)
                            == (PRes::Parsed { v: n@, st: stf }));
                    },
                    Err(e) => {
                        assert(spec_parse_expr_loop(lhs@, st1, min_prec as int, fuel)
                            == PRes::Fail::<ExprModel>(e@));
                    },
                }
            }
        }
        r
    }

    /// The trailing semicolon that closes this statement's form.
    fn end_stmt(&mut self, node: NodeStmt) -> (r: Result<NodeStmt, SyntaxError>)
        requires
            old(self).idx <= old(self).tokens@.len(),
        ensures
            final(self).tokens@.len() == old(self).tokens@.len(),
            final(self).idx <= final(self).tokens@.len(),
            old(self).idx <= final(self).idx,
            match r {
                Ok(n) => spec_end_stmt(node@, parser_state(*old(self)), true) == (PRes::Parsed {
                    v: n@,
                    st: parser_state(*final(self)),
                }),
                Err(e) => spec_end_stmt(node@, parser_state(*old(self)), true) == PRes::Fail::<
                    StmtModel,
                >(e@),
            },
    {
        match self.expect(TokenKind::SemiColon) {
            Ok(_) => Ok(node),
            Err(e) => Err(e),
        }
    }

    /// One statement, dispatched on the lookahead token; see
    /// [`spec_parse_stmt`].
    fn parse_stmt(&mut self) -> (r: Result<NodeStmt, SyntaxError>)
        requires
            old(self).idx <= old(self).tokens@.len(),
        ensures
            final(self).tokens@.len() == old(self).tokens@.len(),
            final(self).idx <= final(self).tokens@.len(),
            old(self).idx <= final(self).idx,
            match r {
                Ok(node) => old(self).idx < final(self).idx && (forall|fuel: nat|
                    fuel > rem_of(*old(self)) ==> spec_parse_stmt(parser_state(*old(self)), fuel)
                        == (PRes::Parsed { v: node@, st: parser_state(*final(self)) })),
                Err(e) => forall|fuel: nat|
                    fuel > rem_of(*old(self)) ==> spec_parse_stmt(parser_state(*old(self)), fuel)
                        == PRes::Fail::<StmtModel>(e@),
            },
        decreases self.tokens@.len() - self.idx, 6int,
    {
        let ghost st0 = parser_state(*self);
        let ghost rem0 = rem_of(*self);
        if self.idx >= self.tokens.len() {
            return Err(SyntaxError::UnexpectedEnd);
        }
        let kind = self.tokens[self.idx].kind;
        if kind == TokenKind::Let {
            self.parse_let()
        } else if kind == TokenKind::If {
            self.parse_if_stmt()
        } else if kind == TokenKind::Fn {
            self.parse_fn_decl()
        } else if kind == TokenKind::Return {
            self.parse_return_stmt()
        } else if kind == TokenKind::While {
            self.parse_while_stmt()
        } else if kind == TokenKind::Ident {
            self.parse_ident_stmt()
        } else if kind == TokenKind::Exit {
            self.parse_exit_stmt()
        } else if kind == TokenKind::Break {
            self.consume();
            let r = self.end_stmt(NodeStmt::Break);
            r
        } else if kind == TokenKind::OpenBrace {
            let scope = match self.parse_scope() {
                Ok(v) => v,
                Err(e) => {
                    proof {
                        assert forall|fuel: nat| fuel > rem0 implies spec_parse_stmt(st0, fuel)
                            == PRes::Fail::<StmtModel>(e@) by {
                            assert(spec_parse_scope(st0, fuel) == PRes::Fail::<ScopeModel>(e@));
                        }
                    }
                    return Err(e);
                },
            };
            let node = NodeStmt::NakedScope(scope);
            proof {
                let stf = parser_state(*self);
                assert forall|fuel: nat| fuel > rem0 implies spec_parse_stmt(st0, fuel)
                    == (PRes::Parsed { v: node@, st: stf }) by {
                    assert(spec_parse_scope(st0, fuel) == (PRes::Parsed {
                        v: node@->NakedScope_0,
                        st: stf,
                    }));
                }
            }
            Ok(node)
        } else {
            Err(SyntaxError::InvalidStatement { found: self.tokens[self.idx].clone() })
        }
    }

    /// The `Let` arm of [`spec_parse_stmt`].
    #[verifier::spinoff_prover]
    fn parse_let(&mut self) -> (r: Result<NodeStmt, SyntaxError>)
        requires
            old(self).idx < old(self).tokens@.len(),
            parser_state(*old(self)).toks[old(self).idx as int].kind == TokenKind::Let,
        ensures
            final(self).tokens@.len() == old(self).tokens@.len(),
            final(self).idx <= final(self).tokens@.len(),
            old(self).idx <= final(self).idx,
            match r {
                Ok(node) => old(self).idx < final(self).idx && (forall|fuel: nat|
                    fuel > rem_of(*old(self)) ==> spec_parse_stmt(parser_state(*old(self)), fuel)
                        == (PRes::Parsed { v: node@, st: parser_state(*final(self)) })),
                Err(e) => forall|fuel: nat|
                    fuel > rem_of(*old(self)) ==> spec_parse_stmt(parser_state(*old(self)), fuel)
                        == PRes::Fail::<StmtModel>(e@),
            },
        decreases self.tokens@.len() - self.idx, 5int,
    {
        let ghost st0 = parser_state(*self);
        let ghost rem0 = rem_of(*self);
        self.consume();
        let mutable = self.expect(TokenKind::Mut).is_ok();
        let ident = match self.expect(TokenKind::Ident) {
            Ok(t) => t,
            Err(e) => {
                return Err(e);
            },
        };
        match self.expect(TokenKind::Colon) {
            Ok(_) => (),
            Err(e) => {
                return Err(e);
            },
        }
        let ptr = self.expect(TokenKind::Ptr).is_ok();
        let type_ident = match self.expect(TokenKind::Ident) {
            Ok(t) => t,
            Err(e) => {
                return Err(e);
            },
        };
        let has_init = self.expect(TokenKind::Eq).is_ok();
        let ghost ste = parser_state(*self);
        let init_expr = if has_init {
            match self.parse_expr(0) {
                Ok(v) => Some(v),
                Err(e) => {
                    proof {
                        assert forall|fuel: nat| fuel > rem0 implies spec_parse_stmt(st0, fuel)
                            == PRes::Fail::<StmtModel>(e@) by {
                            assert(spec_parse_expr(ste, 0, fuel) == PRes::Fail::<ExprModel>(
                                e@,
                            ));
                        }
                    }
                    return Err(e);
                },
            }
        } else {
            None
        };
        let ghost sti = parser_state(*self);
        let node = NodeStmt::VarDecl { init_expr, ident, type_ident, mutable, ptr };
        let r = self.end_stmt(node);
        proof {
            let stf = parser_state(*self);
            assert forall|fuel: nat| fuel > rem0 implies spec_parse_stmt(st0, fuel) == (
            match r {
                Ok(n) => PRes::Parsed { v: n@, st: stf },
                Err(e) => PRes::Fail::<StmtModel>(e@),
            }) by {
                match init_expr {
                    Some(v) => {
                        assert(spec_parse_expr(ste, 0, fuel) == (PRes::Parsed {
                            v: v@,
                            st: sti,
                        }));
                    },
                    None => {},
                }
            }
        }
        r
    }

    /// The `If` arm of [`spec_parse_stmt`].
    #[verifier::spinoff_prover]
    fn parse_if_stmt(&mut self) -> (r: Result<NodeStmt, SyntaxError>)
        requires
            old(self).idx < old(self).tokens@.len(),
            parser_state(*old(self)).toks[old(self).idx as int].kind == TokenKind::If,
        ensures
            final(self).tokens@.len() == old(self).tokens@.len(),
            final(self).idx <= final(self).tokens@.len(),
            old(self).idx <= final(self).idx,
            match r {
                Ok(node) => old(self).idx < final(self).idx && (forall|fuel: nat|
                    fuel > rem_of(*old(self)) ==> spec_parse_stmt(parser_state(*old(self)), fuel)
                        == (PRes::Parsed { v: node@, st: parser_state(*final(self)) })),
                Err(e) => forall|fuel: nat|
                    fuel > rem_of(*old(self)) ==> spec_parse_stmt(parser_state(*old(self)), fuel)
                        == PRes::Fail::<StmtModel>(e@),
            },
        decreases self.tokens@.len() - self.idx, 5int,
    {
        let ghost st0 = parser_state(*self);
        let ghost rem0 = rem_of(*self);
        self.consume();
        let ghost st1 = parser_state(*self);
        let condition = match self.parse_expr(0) {
            Ok(v) => v,
            Err(e) => {
                proof {
                    assert forall|fuel: nat| fuel > rem0 implies spec_parse_stmt(st0, fuel)
                        == PRes::Fail::<StmtModel>(e@) by {
                        assert(spec_parse_expr(st1, 0, fuel) == PRes::Fail::<ExprModel>(e@));
                    }
                }
                return Err(e);
            },
        };
        let ghost st2 = parser_state(*self);
        let scope = match self.parse_scope() {
            Ok(v) => v,
            Err(e) => {
                proof {
                    assert forall|fuel: nat| fuel > rem0 implies spec_parse_stmt(st0, fuel)
                        == PRes::Fail::<StmtModel>(e@) by {
                        assert(spec_parse_expr(st1, 0, fuel) == (PRes::Parsed {
                            v: condition@,
                            st: st2,
                        }));
                        assert(spec_parse_scope(st2, fuel) == PRes::Fail::<ScopeModel>(e@));
                    }
                }
                return Err(e);
            },
        };
        let ghost st3 = parser_state(*self);
        let branches = match self.parse_branches() {
            Ok(v) => v,
            Err(e) => {
                proof {
                    assert forall|fuel: nat| fuel > rem0 implies spec_parse_stmt(st0, fuel)
                        == PRes::Fail::<StmtModel>(e@) by {
                        assert(spec_parse_expr(st1, 0, fuel) == (PRes::Parsed {
                            v: condition@,
                            st: st2,
                        }));
                        assert(spec_parse_scope(st2, fuel) == (PRes::Parsed {
                            v: scope@,
                            st: st3,
                        }));
                        assert(spec_parse_branches(st3, (fuel - 1) as nat) == PRes::Fail::<
                            Seq<StmtModel>,
                        >(e@));
                    }
                }
                return Err(e);
            },
        };
        let ghost branches_view = branches@;
        let node = NodeStmt::If { condition, scope, branches };
        proof {
            let stf = parser_state(*self);
            assert forall|fuel: nat| fuel > rem0 implies spec_parse_stmt(st0, fuel)
                == (PRes::Parsed { v: node@, st: stf }) by {
                assert(spec_parse_expr(st1, 0, fuel) == (PRes::Parsed {
                    v: node@->If_condition,
                    st: st2,
                }));
                assert(spec_parse_scope(st2, fuel) == (PRes::Parsed {
                    v: node@->If_scope,
                    st: st3,
                }));
                assert(spec_parse_branches(st3, (fuel - 1) as nat) == (PRes::Parsed {
                    v: stmts_model(branches_view),
                    st: stf,
                }));
            }
        }
        Ok(node)
    }

    /// The `Fn` arm of [`spec_parse_stmt`].
    #[verifier::spinoff_prover]
    #[verifier::rlimit(100)]
    fn parse_fn_decl(&mut self) -> (r: Result<NodeStmt, SyntaxError>)
        requires
            old(self).idx < old(self).tokens@.len(),
            parser_state(*old(self)).toks[old(self).idx as int].kind == TokenKind::Fn,
        ensures
            final(self).tokens@.len() == old(self).tokens@.len(),
            final(self).idx <= final(self).tokens@.len(),
            old(self).idx <= final(self).idx,
            match r {
                Ok(node) => old(self).idx < final(self).idx && (forall|fuel: nat|
                    fuel > rem_of(*old(self)) ==> spec_parse_stmt(parser_state(*old(self)), fuel)
                        == (PRes::Parsed { v: node@, st: parser_state(*final(self)) })),
                Err(e) => forall|fuel: nat|
                    fuel > rem_of(*old(self)) ==> spec_parse_stmt(parser_state(*old(self)), fuel)
                        == PRes::Fail::<StmtModel>(e@),
            },
        decreases self.tokens@.len() - self.idx, 5int,
    {
        let ghost st0 = parser_state(*self);
        let ghost rem0 = rem_of(*self);
        self.consume();
        let ident = match self.expect(TokenKind::Ident) {
            Ok(t) => t,
            Err(e) => {
                return Err(e);
            },
        };
        match self.expect(TokenKind::OpenParen) {
            Ok(_) => (),
            Err(e) => {
                return Err(e);
            },
        }
        let ghost sta = parser_state(*self);
        let args = match self.parse_args(true) {
            Ok(v) => v,
            Err(e) => {
                proof {
                    assert forall|fuel: nat| fuel > rem0 implies spec_parse_stmt(st0, fuel)
                        == PRes::Fail::<StmtModel>(e@) by {
                        assert(spec_parse_args(sta, true, fuel) == PRes::Fail::<Seq<ArgModel>>(
                            e@,
                        ));
                    }
                }
                return Err(e);
            },
        };
        let ghost stb = parser_state(*self);
        let ghost args_view = args@;
        match self.expect(TokenKind::CloseParen) {
            Ok(_) => (),
            Err(e) => {
                proof {
                    assert forall|fuel: nat| fuel > rem0 implies spec_parse_stmt(st0, fuel)
                        == PRes::Fail::<StmtModel>(e@) by {
                        assert(spec_parse_args(sta, true, fuel) == (PRes::Parsed {
                            v: args_model(args_view),
                            st: stb,
                        }));
                    }
                }
                return Err(e);
            },
        }
        let has_ret = self.expect(TokenKind::Arrow).is_ok();
        let ret_type_tok = if has_ret {
            match self.expect(TokenKind::Ident) {
                Ok(t) => Some(t),
                Err(e) => {
                    proof {
                        assert forall|fuel: nat| fuel > rem0 implies spec_parse_stmt(st0, fuel)
                            == PRes::Fail::<StmtModel>(e@) by {
                            assert(spec_parse_args(sta, true, fuel) == (PRes::Parsed {
                                v: args_model(args_view),
                                st: stb,
                            }));
                        }
                    }
                    return Err(e);
                },
            }
        } else {
            None
        };
        let ghost strt = parser_state(*self);
        let scope = match self.parse_scope() {
            Ok(v) => v,
            Err(e) => {
                proof {
                    assert forall|fuel: nat| fuel > rem0 implies spec_parse_stmt(st0, fuel)
                        == PRes::Fail::<StmtModel>(e@) by {
                        assert(spec_parse_args(sta, true, fuel) == (PRes::Parsed {
                            v: args_model(args_view),
                            st: stb,
                        }));
                        assert(spec_parse_scope(strt, fuel) == PRes::Fail::<ScopeModel>(e@));
                    }
                }
                return Err(e);
            },
        };
        let node = NodeStmt::FnDecl { ident, args, scope, ret_type_tok };
        proof {
            let stf = parser_state(*self);
            assert forall|fuel: nat| fuel > rem0 implies spec_parse_stmt(st0, fuel)
                == (PRes::Parsed { v: node@, st: stf }) by {
                assert(spec_parse_args(sta, true, fuel) == (PRes::Parsed {
                    v: args_model(args_view),
                    st: stb,
                }));
                assert(spec_parse_scope(strt, fuel) == (PRes::Parsed {
                    v: node@->FnDecl_scope,
                    st: stf,
                }));
            }
        }
        Ok(node)
    }

    /// The `Return` arm of [`spec_parse_stmt`].
    #[verifier::spinoff_prover]
    fn parse_return_stmt(&mut self) -> (r: Result<NodeStmt, SyntaxError>)
        requires
            old(self).idx < old(self).tokens@.len(),
            parser_state(*old(self)).toks[old(self).idx as int].kind == TokenKind::Return,
        ensures
            final(self).tokens@.len() == old(self).tokens@.len(),
            final(self).idx <= final(self).tokens@.len(),
            old(self).idx <= final(self).idx,
            match r {
                Ok(node) => old(self).idx < final(self).idx && (forall|fuel: nat|
                    fuel > rem_of(*old(self)) ==> spec_parse_stmt(parser_state(*old(self)), fuel)
                        == (PRes::Parsed { v: node@, st: parser_state(*final(self)) })),
                Err(e) => forall|fuel: nat|
                    fuel > rem_of(*old(self)) ==> spec_parse_stmt(parser_state(*old(self)), fuel)
                        == PRes::Fail::<StmtModel>(e@),
            },
        decreases self.tokens@.len() - self.idx, 5int,
    {
        let ghost st0 = parser_state(*self);
        let ghost rem0 = rem_of(*self);
        self.consume();
        if self.token_equals(TokenKind::SemiColon, 0).is_ok() {
            let r = self.end_stmt(NodeStmt::Return(None));
            r
        } else {
            let ghost st1 = parser_state(*self);
            let e0 = match self.parse_expr(0) {
                Ok(v) => v,
                Err(e) => {
                    proof {
                        assert forall|fuel: nat| fuel > rem0 implies spec_parse_stmt(st0, fuel)
                            == PRes::Fail::<StmtModel>(e@) by {
                            assert(spec_parse_expr(st1, 0, fuel) == PRes::Fail::<ExprModel>(
                                e@,
                            ));
                        }
                    }
                    return Err(e);
                },
            };
            let ghost st2 = parser_state(*self);
            let node = NodeStmt::Return(Some(e0));
            let r = self.end_stmt(node);
            proof {
                let stf = parser_state(*self);
                assert forall|fuel: nat| fuel > rem0 implies spec_parse_stmt(st0, fuel) == (
                match r {
                    Ok(n) => PRes::Parsed { v: n@, st: stf },
                    Err(e) => PRes::Fail::<StmtModel>(e@),
                }) by {
                    assert(spec_parse_expr(st1, 0, fuel) == (PRes::Parsed {
                        v: e0@,
                        st: st2,
                    }));
                }
            }
            r
        }
    }

    /// The `While` arm of [`spec_parse_stmt`].
    #[verifier::spinoff_prover]
    fn parse_while_stmt(&mut self) -> (r: Result<NodeStmt, SyntaxError>)
        requires
            old(self).idx < old(self).tokens@.len(),
            parser_state(*old(self)).toks[old(self).idx as int].kind == TokenKind::While,
        ensures
            final(self).tokens@.len() == old(self).tokens@.len(),
            final(self).idx <= final(self).tokens@.len(),
            old(self).idx <= final(self).idx,
            match r {
                Ok(node) => old(self).idx < final(self).idx && (forall|fuel: nat|
                    fuel > rem_of(*old(self)) ==> spec_parse_stmt(parser_state(*old(self)), fuel)
                        == (PRes::Parsed { v: node@, st: parser_state(*final(self)) })),
                Err(e) => forall|fuel: nat|
                    fuel > rem_of(*old(self)) ==> spec_parse_stmt(parser_state(*old(self)), fuel)
                        == PRes::Fail::<StmtModel>(e@),
            },
        decreases self.tokens@.len() - self.idx, 5int,
    {
        let ghost st0 = parser_state(*self);
        let ghost rem0 = rem_of(*self);
        self.consume();
        let ghost st1 = parser_state(*self);
        let condition = match self.parse_expr(0) {
            Ok(v) => v,
            Err(e) => {
                proof {
                    assert forall|fuel: nat| fuel > rem0 implies spec_parse_stmt(st0, fuel)
                        == PRes::Fail::<StmtModel>(e@) by {
                        assert(spec_parse_expr(st1, 0, fuel) == PRes::Fail::<ExprModel>(e@));
                    }
                }
                return Err(e);
            },
        };
        let ghost st2 = parser_state(*self);
        let scope = match self.parse_scope() {
            Ok(v) => v,
            Err(e) => {
                proof {
                    assert forall|fuel: nat| fuel > rem0 implies spec_parse_stmt(st0, fuel)
                        == PRes::Fail::<StmtModel>(e@) by {
                        assert(spec_parse_expr(st1, 0, fuel) == (PRes::Parsed {
                            v: condition@,
                            st: st2,
                        }));
                        assert(spec_parse_scope(st2, fuel) == PRes::Fail::<ScopeModel>(e@));
                    }
                }
                return Err(e);
            },
        };
        let node = NodeStmt::While { condition, scope };
        proof {
            let stf = parser_state(*self);
            assert forall|fuel: nat| fuel > rem0 implies spec_parse_stmt(st0, fuel)
                == (PRes::Parsed { v: node@, st: stf }) by {
                assert(spec_parse_expr(st1, 0, fuel) == (PRes::Parsed {
                    v: node@->While_condition,
                    st: st2,
                }));
                assert(spec_parse_scope(st2, fuel) == (PRes::Parsed {
                    v: node@->While_scope,
                    st: stf,
                }));
            }
        }
        Ok(node)
    }

    /// The `Ident` arm of [`spec_parse_stmt`].
    #[verifier::spinoff_prover]
    fn parse_ident_stmt(&mut self) -> (r: Result<NodeStmt, SyntaxError>)
        requires
            old(self).idx < old(self).tokens@.len(),
            parser_state(*old(self)).toks[old(self).idx as int].kind == TokenKind::Ident,
        ensures
            final(self).tokens@.len() == old(self).tokens@.len(),
            final(self).idx <= final(self).tokens@.len(),
            old(self).idx <= final(self).idx,
            match r {
                Ok(node) => old(self).idx < final(self).idx && (forall|fuel: nat|
                    fuel > rem_of(*old(self)) ==> spec_parse_stmt(parser_state(*old(self)), fuel)
                        == (PRes::Parsed { v: node@, st: parser_state(*final(self)) })),
                Err(e) => forall|fuel: nat|
                    fuel > rem_of(*old(self)) ==> spec_parse_stmt(parser_state(*old(self)), fuel)
                        == PRes::Fail::<StmtModel>(e@),
            },
        decreases self.tokens@.len() - self.idx, 5int,
    {
        let ghost st0 = parser_state(*self);
        let ghost rem0 = rem_of(*self);
        let k1: Option<TokenKind> = match self.peek(1) {
            Some(t) => Some(t.kind),
            None => None,
        };
        match k1 {
            Some(k) if k == TokenKind::Eq => {
                let ident = match self.expect(TokenKind::Ident) {
                    Ok(t) => t,
                    Err(e) => {
                        return Err(e);
                    },
                };
                match self.expect(TokenKind::Eq) {
                    Ok(_) => (),
                    Err(e) => {
                        return Err(e);
                    },
                }
                let ghost st2 = parser_state(*self);
                let expr = match self.parse_expr(0) {
                    Ok(v) => v,
                    Err(e) => {
                        proof {
                            assert forall|fuel: nat| fuel > rem0 implies spec_parse_stmt(
                                st0,
                                fuel,
                            ) == PRes::Fail::<StmtModel>(e@) by {
                                assert(spec_parse_expr(st2, 0, fuel) == PRes::Fail::<
                                    ExprModel,
                                >(e@));
                            }
                        }
                        return Err(e);
                    },
                };
                let ghost st3 = parser_state(*self);
                let node = NodeStmt::Assign { ident, expr };
                let r = self.end_stmt(node);
                proof {
                    let stf = parser_state(*self);
                    assert forall|fuel: nat| fuel > rem0 implies spec_parse_stmt(st0, fuel)
                        == (match r {
                        Ok(n) => PRes::Parsed { v: n@, st: stf },
                        Err(e) => PRes::Fail::<StmtModel>(e@),
                    }) by {
                        assert(spec_parse_expr(st2, 0, fuel) == (PRes::Parsed {
                            v: expr@,
                            st: st3,
                        }));
                    }
                }
                r
            },
            Some(k) => {
                if k.has_flags(TokenFlags::assign()) {
                    let arith = match k.assign_to_arithmetic() {
                        Ok(a) => a,
                        Err(e) => {
                            return Err(e);
                        },
                    };
                    let n = self.tokens.len();
                    assert(self.idx + 1 < n);
                    let ident = self.tokens[self.idx].clone();
                    let comp = self.tokens.remove(self.idx + 1);
                    let newtok = Token { kind: arith, value: comp.value, pos: comp.pos };
                    self.tokens.insert(self.idx + 1, newtok);
                    proof {
                        assert(self.tokens@ =~= old(self).tokens@.update(
                            st0.i + 1,
                            self.tokens@[st0.i + 1],
                        ));
                        assert(self.tokens.deep_view() =~= st0.toks.update(
                            st0.i + 1,
                            TokenModel { kind: arith, value: comp@.value, pos: comp@.pos },
                        ));
                    }
                    let ghost stc = parser_state(*self);
                    let expr = match self.parse_expr(0) {
                        Ok(v) => v,
                        Err(e) => {
                            proof {
                                assert forall|fuel: nat| fuel > rem0 implies spec_parse_stmt(
                                    st0,
                                    fuel,
                                ) == PRes::Fail::<StmtModel>(e@) by {
                                    assert(spec_parse_expr(stc, 0, fuel) == PRes::Fail::<
                                        ExprModel,
                                    >(e@));
                                }
                            }
                            return Err(e);
                        },
                    };
                    let ghost st3 = parser_state(*self);
                    let node = NodeStmt::Assign { ident, expr };
                    let r = self.end_stmt(node);
                    proof {
                        let stf = parser_state(*self);
                        assert forall|fuel: nat| fuel > rem0 implies spec_parse_stmt(st0, fuel)
                            == (match r {
                            Ok(n) => PRes::Parsed { v: n@, st: stf },
                            Err(e) => PRes::Fail::<StmtModel>(e@),
                        }) by {
                            assert(spec_parse_expr(stc, 0, fuel) == (PRes::Parsed {
                                v: expr@,
                                st: st3,
                            }));
                        }
                    }
                    r
                } else {
                    Err(SyntaxError::NakedExpression { found: self.tokens[self.idx].clone() })
                }
            },
            None => Err(SyntaxError::NakedExpression { found: self.tokens[self.idx].clone() }),
        }
    }

    /// The `Exit` arm of [`spec_parse_stmt`].
    #[verifier::spinoff_prover]
    fn parse_exit_stmt(&mut self) -> (r: Result<NodeStmt, SyntaxError>)
        requires
            old(self).idx < old(self).tokens@.len(),
            parser_state(*old(self)).toks[old(self).idx as int].kind == TokenKind::Exit,
        ensures
            final(self).tokens@.len() == old(self).tokens@.len(),
            final(self).idx <= final(self).tokens@.len(),
            old(self).idx <= final(self).idx,
            match r {
                Ok(node) => old(self).idx < final(self).idx && (forall|fuel: nat|
                    fuel > rem_of(*old(self)) ==> spec_parse_stmt(parser_state(*old(self)), fuel)
                        == (PRes::Parsed { v: node@, st: parser_state(*final(self)) })),
                Err(e) => forall|fuel: nat|
                    fuel > rem_of(*old(self)) ==> spec_parse_stmt(parser_state(*old(self)), fuel)
                        == PRes::Fail::<StmtModel>(e@),
            },
        decreases self.tokens@.len() - self.idx, 5int,
    {
        let ghost st0 = parser_state(*self);
        let ghost rem0 = rem_of(*self);
        self.consume();
        match self.token_equals(TokenKind::OpenParen, 0) {
            Ok(_) => (),
            Err(e) => {
                return Err(e);
            },
        }
        let ghost st1 = parser_state(*self);
        let expr = match self.parse_expr(0) {
            Ok(v) => v,
            Err(e) => {
                proof {
                    assert forall|fuel: nat| fuel > rem0 implies spec_parse_stmt(st0, fuel)
                        == PRes::Fail::<StmtModel>(e@) by {
                        assert(spec_parse_expr(st1, 0, fuel) == PRes::Fail::<ExprModel>(e@));
                    }
                }
                return Err(e);
            },
        };
        let ghost st2 = parser_state(*self);
        let node = NodeStmt::Exit(expr);
        let r = self.end_stmt(node);
        proof {
            let stf = parser_state(*self);
            assert forall|fuel: nat| fuel > rem0 implies spec_parse_stmt(st0, fuel) == (
            match r {
                Ok(n) => PRes::Parsed { v: n@, st: stf },
                Err(e) => PRes::Fail::<StmtModel>(e@),
            }) by {
                assert(spec_parse_expr(st1, 0, fuel) == (PRes::Parsed { v: expr@, st: st2 }));
            }
        }
        r
    }

    /// The parameter list of a function declaration; see
    /// [`spec_parse_args`].
    fn parse_args(&mut self, first: bool) -> (r: Result<Vec<Arg>, SyntaxError>)
        requires
            old(self).idx <= old(self).tokens@.len(),
        ensures
            final(self).tokens@.len() == old(self).tokens@.len(),
            final(self).idx <= final(self).tokens@.len(),
            old(self).idx <= final(self).idx,
            match r {
                Ok(args) => forall|fuel: nat|
                    fuel > rem_of(*old(self)) ==> spec_parse_args(
                        parser_state(*old(self)),
                        first,
                        fuel,
                    ) == (PRes::Parsed { v: args_model(args@), st: parser_state(*final(self)) }),
                Err(e) => forall|fuel: nat|
                    fuel > rem_of(*old(self)) ==> spec_parse_args(
                        parser_state(*old(self)),
                        first,
                        fuel,
                    ) == PRes::Fail::<Seq<ArgModel>>(e@),
            },
        decreases self.tokens@.len() - self.idx, 3int,
    {
        let ghost st0 = parser_state(*self);
        let ghost rem0 = rem_of(*self);
        if self.token_equals(TokenKind::CloseParen, 0).is_ok() {
            let empty: Vec<Arg> = Vec::new();
            proof {
                assert(args_model(empty@) =~= Seq::<ArgModel>::empty());
            }
            return Ok(empty);
        }
        if !first {
            match self.expect(TokenKind::Comma) {
                Ok(_) => (),
                Err(e) => {
                    return Err(e);
                },
            }
        }
        let ident = match self.expect(TokenKind::Ident) {
            Ok(t) => t,
            Err(e) => {
                return Err(e);
            },
        };
        match self.expect(TokenKind::Colon) {
            Ok(_) => (),
            Err(e) => {
                return Err(e);
            },
        }
        let type_ident = match self.expect(TokenKind::Ident) {
            Ok(t) => t,
            Err(e) => {
                return Err(e);
            },
        };
        let ghost st3 = parser_state(*self);
        let arg = Arg { ident, type_ident };
        let mut rest = match self.parse_args(false) {
            Ok(v) => v,
            Err(e) => {
                proof {
                    assert forall|fuel: nat| fuel > rem0 implies spec_parse_args(st0, first, fuel)
                        == PRes::Fail::<Seq<ArgModel>>(e@) by {
                        assert(spec_parse_args(st3, false, (fuel - 1) as nat) == PRes::Fail::<
                            Seq<ArgModel>,
                        >(e@));
                    }
                }
                return Err(e);
            },
        };
        let ghost rest_view = rest@;
        rest.insert(0, arg);
        proof {
            let stf = parser_state(*self);
            assert(rest@.drop_first() =~= rest_view);
            assert(args_model(rest@) =~= seq![arg_model(arg)] + args_model(rest_view));
            assert forall|fuel: nat| fuel > rem0 implies spec_parse_args(st0, first, fuel)
                == (PRes::Parsed { v: args_model(rest@), st: stf }) by {
                assert(spec_parse_args(st3, false, (fuel - 1) as nat) == (PRes::Parsed {
                    v: args_model(rest_view),
                    st: stf,
                }));
            }
        }
        Ok(rest)
    }

    /// A brace-delimited scope; see [`spec_parse_scope`].
    fn parse_scope(&mut self) -> (r: Result<NodeScope, SyntaxError>)
        requires
            old(self).idx <= old(self).tokens@.len(),
        ensures
            final(self).tokens@.len() == old(self).tokens@.len(),
            final(self).idx <= final(self).tokens@.len(),
            old(self).idx <= final(self).idx,
            match r {
                Ok(sc) => old(self).idx < final(self).idx && (forall|fuel: nat|
                    fuel > rem_of(*old(self)) ==> spec_parse_scope(parser_state(*old(self)), fuel)
                        == (PRes::Parsed { v: sc@, st: parser_state(*final(self)) })),
                Err(e) => forall|fuel: nat|
                    fuel > rem_of(*old(self)) ==> spec_parse_scope(parser_state(*old(self)), fuel)
                        == PRes::Fail::<ScopeModel>(e@),
            },
        decreases self.tokens@.len() - self.idx, 4int,
    {
        let ghost st0 = parser_state(*self);
        let ghost rem0 = rem_of(*self);
        match self.expect(TokenKind::OpenBrace) {
            Ok(_) => (),
            Err(e) => {
                return Err(e);
            },
        }
        let ghost st1 = parser_state(*self);
        let stmts = match self.parse_stmts() {
            Ok(v) => v,
            Err(e) => {
                proof {
                    assert forall|fuel: nat| fuel > rem0 implies spec_parse_scope(st0, fuel)
                        == PRes::Fail::<ScopeModel>(e@) by {
                        assert(spec_parse_stmts(st1, (fuel - 1) as nat) == PRes::Fail::<
                            Seq<StmtModel>,
                        >(e@));
                    }
                }
                return Err(e);
            },
        };
        let node = NodeScope { stmts, inherits_stmts: true };
        proof {
            let stf = parser_state(*self);
            assert forall|fuel: nat| fuel > rem0 implies spec_parse_scope(st0, fuel)
                == (PRes::Parsed { v: node@, st: stf }) by {
                assert(spec_parse_stmts(st1, (fuel - 1) as nat) == (PRes::Parsed {
                    v: stmts_model(node.stmts@),
                    st: stf,
                }));
            }
        }
        Ok(node)
    }

    /// The statements of a scope body; see [`spec_parse_stmts`].
    fn parse_stmts(&mut self) -> (r: Result<Vec<NodeStmt>, SyntaxError>)
        requires
            old(self).idx <= old(self).tokens@.len(),
        ensures
            final(self).tokens@.len() == old(self).tokens@.len(),
            final(self).idx <= final(self).tokens@.len(),
            old(self).idx <= final(self).idx,
            match r {
                Ok(v) => forall|fuel: nat|
                    fuel > rem_of(*old(self)) ==> spec_parse_stmts(parser_state(*old(self)), fuel)
                        == (PRes::Parsed { v: stmts_model(v@), st: parser_state(*final(self)) }),
                Err(e) => forall|fuel: nat|
                    fuel > rem_of(*old(self)) ==> spec_parse_stmts(parser_state(*old(self)), fuel)
                        == PRes::Fail::<Seq<StmtModel>>(e@),
            },
        decreases self.tokens@.len() - self.idx, 7int,
    {
        let ghost st0 = parser_state(*self);
        let ghost rem0 = rem_of(*self);
        if self.token_equals(TokenKind::CloseBrace, 0).is_ok() {
            self.consume();
            let empty: Vec<NodeStmt> = Vec::new();
            proof {
                assert(stmts_model(empty@) =~= Seq::<StmtModel>::empty());
            }
            return Ok(empty);
        }
        let s = match self.parse_stmt() {
            Ok(v) => v,
            Err(e) => {
                proof {
                    assert forall|fuel: nat| fuel > rem0 implies spec_parse_stmts(st0, fuel)
                        == PRes::Fail::<Seq<StmtModel>>(e@) by {
                        assert(spec_parse_stmt(st0, fuel) == PRes::Fail::<StmtModel>(e@));
                    }
                }
                return Err(e);
            },
        };
        let ghost st1 = parser_state(*self);
        let mut rest = match self.parse_stmts() {
            Ok(v) => v,
            Err(e) => {
                proof {
                    assert forall|fuel: nat| fuel > rem0 implies spec_parse_stmts(st0, fuel)
                        == PRes::Fail::<Seq<StmtModel>>(e@) by {
                        assert(spec_parse_stmt(st0, fuel) == (PRes::Parsed { v: s@, st: st1 }));
                        assert(spec_parse_stmts(st1, (fuel - 1) as nat) == PRes::Fail::<
                            Seq<StmtModel>,
                        >(e@));
                    }
                }
                return Err(e);
            },
        };
        let ghost rest_view = rest@;
        rest.insert(0, s);
        proof {
            let stf = parser_state(*self);
            assert(rest@.drop_first() =~= rest_view);
            assert(stmts_model(rest@) =~= seq![stmt_model(rest@[0])] + stmts_model(rest_view));
            assert forall|fuel: nat| fuel > rem0 implies spec_parse_stmts(st0, fuel)
                == (PRes::Parsed { v: stmts_model(rest@), st: stf }) by {
                assert(spec_parse_stmt(st0, fuel) == (PRes::Parsed { v: s@, st: st1 }));
                assert(spec_parse_stmts(st1, (fuel - 1) as nat) == (PRes::Parsed {
                    v: stmts_model(rest_view),
                    st: stf,
                }));
            }
        }
        Ok(rest)
    }

    /// The `else`/`else if` chain of an `if`; see [`spec_parse_branches`].
    fn parse_branches(&mut self) -> (r: Result<Vec<NodeStmt>, SyntaxError>)
        requires
            old(self).idx <= old(self).tokens@.len(),
        ensures
            final(self).tokens@.len() == old(self).tokens@.len(),
            final(self).idx <= final(self).tokens@.len(),
            old(self).idx <= final(self).idx,
            match r {
                Ok(v) => forall|fuel: nat|
                    fuel > rem_of(*old(self)) ==> spec_parse_branches(
                        parser_state(*old(self)),
                        fuel,
                    ) == (PRes::Parsed { v: stmts_model(v@), st: parser_state(*final(self)) }),
                Err(e) => forall|fuel: nat|
                    fuel > rem_of(*old(self)) ==> spec_parse_branches(
                        parser_state(*old(self)),
                        fuel,
                    ) == PRes::Fail::<Seq<StmtModel>>(e@),
            },
        decreases self.tokens@.len() - self.idx, 7int,
    {
        let ghost st0 = parser_state(*self);
        let ghost rem0 = rem_of(*self);
        if self.token_equals(TokenKind::Else, 0).is_err() {
            let empty: Vec<NodeStmt> = Vec::new();
            proof {
                assert(stmts_model(empty@) =~= Seq::<StmtModel>::empty());
            }
            return Ok(empty);
        }
        self.consume();
        if self.token_equals(TokenKind::If, 0).is_ok() {
            self.consume();
            let ghost st2 = parser_state(*self);
            let condition = match self.parse_expr(0) {
                Ok(v) => v,
                Err(e) => {
                    proof {
                        assert forall|fuel: nat| fuel > rem0 implies spec_parse_branches(st0, fuel)
                            == PRes::Fail::<Seq<StmtModel>>(e@) by {
                            assert(spec_parse_expr(st2, 0, fuel) == PRes::Fail::<ExprModel>(e@));
                        }
                    }
                    return Err(e);
                },
            };
            let ghost st3 = parser_state(*self);
            let scope = match self.parse_scope() {
                Ok(v) => v,
                Err(e) => {
                    proof {
                        assert forall|fuel: nat| fuel > rem0 implies spec_parse_branches(st0, fuel)
                            == PRes::Fail::<Seq<StmtModel>>(e@) by {
                            assert(spec_parse_expr(st2, 0, fuel) == (PRes::Parsed {
                                v: condition@,
                                st: st3,
                            }));
                            assert(spec_parse_scope(st3, fuel) == PRes::Fail::<ScopeModel>(e@));
                        }
                    }
                    return Err(e);
                },
            };
            let ghost st4 = parser_state(*self);
            let node = NodeStmt::ElseIf { condition, scope };
            let mut rest = match self.parse_branches() {
                Ok(v) => v,
                Err(e) => {
                    proof {
                        assert forall|fuel: nat| fuel > rem0 implies spec_parse_branches(st0, fuel)
                            == PRes::Fail::<Seq<StmtModel>>(e@) by {
                            assert(spec_parse_expr(st2, 0, fuel) == (PRes::Parsed {
                                v: node@->ElseIf_condition,
                                st: st3,
                            }));
                            assert(spec_parse_scope(st3, fuel) == (PRes::Parsed {
                                v: node@->ElseIf_scope,
                                st: st4,
                            }));
                            assert(spec_parse_branches(st4, (fuel - 1) as nat) == PRes::Fail::<
                                Seq<StmtModel>,
                            >(e@));
                        }
                    }
                    return Err(e);
                },
            };
            let ghost rest_view = rest@;
            rest.insert(0, node);
            proof {
                let stf = parser_state(*self);
                assert(rest@.drop_first() =~= rest_view);
                assert(stmts_model(rest@) =~= seq![stmt_model(rest@[0])] + stmts_model(rest_view));
                assert forall|fuel: nat| fuel > rem0 implies spec_parse_branches(st0, fuel)
                    == (PRes::Parsed { v: stmts_model(rest@), st: stf }) by {
                    assert(spec_parse_expr(st2, 0, fuel) == (PRes::Parsed {
                        v: rest@[0]@->ElseIf_condition,
                        st: st3,
                    }));
                    assert(spec_parse_scope(st3, fuel) == (PRes::Parsed {
                        v: rest@[0]@->ElseIf_scope,
                        st: st4,
                    }));
                    assert(spec_parse_branches(st4, (fuel - 1) as nat) == (PRes::Parsed {
                        v: stmts_model(rest_view),
                        st: stf,
                    }));
                }
            }
            Ok(rest)
        } else {
            let ghost st1 = parser_state(*self);
            let scope = match self.parse_scope() {
                Ok(v) => v,
                Err(e) => {
                    proof {
                        assert forall|fuel: nat| fuel > rem0 implies spec_parse_branches(st0, fuel)
                            == PRes::Fail::<Seq<StmtModel>>(e@) by {
                            assert(spec_parse_scope(st1, fuel) == PRes::Fail::<ScopeModel>(e@));
                        }
                    }
                    return Err(e);
                },
            };
            let mut v: Vec<NodeStmt> = Vec::new();
            v.push(NodeStmt::Else(scope));
            proof {
                let stf = parser_state(*self);
                assert(v@.drop_first() =~= Seq::<NodeStmt>::empty());
                assert(stmts_model(v@.drop_first()) =~= Seq::<StmtModel>::empty());
                assert(stmts_model(v@) =~= seq![stmt_model(v@[0])]);
                assert forall|fuel: nat| fuel > rem0 implies spec_parse_branches(st0, fuel)
                    == (PRes::Parsed { v: stmts_model(v@), st: stf }) by {
                    assert(spec_parse_scope(st1, fuel) == (PRes::Parsed {
                        v: v@[0]@->Else_0,
                        st: stf,
                    }));
                }
            }
            Ok(v)
        }
    }

    /// The top-level statement list; see [`spec_parse_ast`].
    fn parse_prog(&mut self) -> (r: Result<Vec<NodeStmt>, SyntaxError>)
        requires
            old(self).idx <= old(self).tokens@.len(),
        ensures
            final(self).tokens@.len() == old(self).tokens@.len(),
            final(self).idx <= final(self).tokens@.len(),
            old(self).idx <= final(self).idx,
            match r {
                Ok(v) => forall|fuel: nat|
                    fuel > rem_of(*old(self)) ==> spec_parse_ast(parser_state(*old(self)), fuel)
                        == (PRes::Parsed { v: stmts_model(v@), st: parser_state(*final(self)) }),
                Err(e) => forall|fuel: nat|
                    fuel > rem_of(*old(self)) ==> spec_parse_ast(parser_state(*old(self)), fuel)
                        == PRes::Fail::<Seq<StmtModel>>(e@),
            },
        decreases self.tokens@.len() - self.idx, 8int,
    {
        let ghost st0 = parser_state(*self);
        let ghost rem0 = rem_of(*self);
        if self.idx >= self.tokens.len() {
            let empty: Vec<NodeStmt> = Vec::new();
            proof {
                assert(stmts_model(empty@) =~= Seq::<StmtModel>::empty());
            }
            return Ok(empty);
        }
        let s = match self.parse_stmt() {
            Ok(v) => v,
            Err(e) => {
                proof {
                    assert forall|fuel: nat| fuel > rem0 implies spec_parse_ast(st0, fuel)
                        == PRes::Fail::<Seq<StmtModel>>(e@) by {
                        assert(spec_parse_stmt(st0, fuel) == PRes::Fail::<StmtModel>(e@));
                    }
                }
                return Err(e);
            },
        };
        let ghost st1 = parser_state(*self);
        let mut rest = match self.parse_prog() {
            Ok(v) => v,
            Err(e) => {
                proof {
                    assert forall|fuel: nat| fuel > rem0 implies spec_parse_ast(st0, fuel)
                        == PRes::Fail::<Seq<StmtModel>>(e@) by {
                        assert(spec_parse_stmt(st0, fuel) == (PRes::Parsed { v: s@, st: st1 }));
                        assert(spec_parse_ast(st1, (fuel - 1) as nat) == PRes::Fail::<
                            Seq<StmtModel>,
                        >(e@));
                    }
                }
                return Err(e);
            },
        };
        let ghost rest_view = rest@;
        rest.insert(0, s);
        proof {
            let stf = parser_state(*self);
            assert(rest@.drop_first() =~= rest_view);
            assert(stmts_model(rest@) =~= seq![stmt_model(rest@[0])] + stmts_model(rest_view));
            assert forall|fuel: nat| fuel > rem0 implies spec_parse_ast(st0, fuel) == (PRes::Parsed {
                v: stmts_model(rest@),
                st: stf,
            }) by {
                assert(spec_parse_stmt(st0, fuel) == (PRes::Parsed { v: s@, st: st1 }));
                assert(spec_parse_ast(st1, (fuel - 1) as nat) == (PRes::Parsed {
                    v: stmts_model(rest_view),
                    st: stf,
                }));
            }
        }
        Ok(rest)
    }

    /// Parses the whole token stream into a program: the statement
    /// sequence of [`spec_parse_ast`], or the first syntax error.
    pub fn parse_ast(&mut self) -> (r: Result<AST, SyntaxError>)
        requires
            old(self).idx <= old(self).tokens@.len(),
        ensures
            match r {
                Ok(ast) => forall|fuel: nat|
                    fuel > rem_of(*old(self)) ==> spec_parse_ast(parser_state(*old(self)), fuel)
                        == (PRes::Parsed { v: ast@.stmts, st: parser_state(*final(self)) }),
                Err(e) => forall|fuel: nat|
                    fuel > rem_of(*old(self)) ==> spec_parse_ast(parser_state(*old(self)), fuel)
                        == PRes::Fail::<Seq<StmtModel>>(e@),
            },
    {
        match self.parse_prog() {
            Ok(stmts) => Ok(AST { stmts }),
            Err(e) => Err(e),
        }
    }
}

/// Indexing into [`stmts_model`] is pointwise [`stmt_model`].
pub proof fn lemma_stmts_model_index(v: Seq<NodeStmt>)
    ensures
        stmts_model(v).len() == v.len(),
        forall|i: int| 0 <= i < v.len() ==> #[trigger] stmts_model(v)[i] == stmt_model(v[i]),
    decreases v,
{
    if v.len() > 0 {
        lemma_stmts_model_index(v.drop_first());
    }
}

} // verus!
