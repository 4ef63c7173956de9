//! Typed errors for the four pipeline stages.
//!
//! Every rule violation and every internal invariant breach surfaces as a
//! value of one of these enums; no stage panics. Errors carry the offending
//! token where one exists, so callers can report position and text.

use vstd::prelude::*;
use crate::lex::{Token, TokenKind, TokenModel};

verus! {

/// A source character that fits no lexical class.
#[derive(Debug, Clone, Copy, PartialEq, Eq)]
pub struct LexicalError {
    pub ch: char,
    /// (column, row) where the character was found.
    pub pos: (u32, u32),
}

/// A token sequence the parser cannot shape into a statement or expression.
#[derive(Debug, Clone, PartialEq)]
pub enum SyntaxError {
    /// A specific token kind was required and something else stood there.
    UnexpectedToken { expected: TokenKind, found: Token },
    /// The token stream ended while a statement or expression was open.
    UnexpectedEnd,
    /// No statement begins with this token.
    InvalidStatement { found: Token },
    /// No term begins with this token.
    InvalidTerm { found: Token },
    /// An expression stands alone where a statement is required.
    NakedExpression { found: Token },
    /// The kind is not a compound-assignment operator.
    NotCompoundAssign { op: TokenKind },
}

/// Mathematical model of a [`SyntaxError`].
pub enum SyntaxErrorModel {
    UnexpectedToken { expected: TokenKind, found: TokenModel },
    UnexpectedEnd,
    InvalidStatement { found: TokenModel },
    InvalidTerm { found: TokenModel },
    NakedExpression { found: TokenModel },
    NotCompoundAssign { op: TokenKind },
}

impl View for SyntaxError {
    type V = SyntaxErrorModel;

    open spec fn view(&self) -> SyntaxErrorModel {
        match *self {
            SyntaxError::UnexpectedToken { expected, ref found } => SyntaxErrorModel::UnexpectedToken { expected, found: found@ },
            SyntaxError::UnexpectedEnd => SyntaxErrorModel::UnexpectedEnd,
            SyntaxError::InvalidStatement { ref found } => SyntaxErrorModel::InvalidStatement { found: found@ },
            SyntaxError::InvalidTerm { ref found } => SyntaxErrorModel::InvalidTerm { found: found@ },
            SyntaxError::NakedExpression { ref found } => SyntaxErrorModel::NakedExpression { found: found@ },
            SyntaxError::NotCompoundAssign { op } => SyntaxErrorModel::NotCompoundAssign { op },
        }
    }
}

/// A violation of the language's semantic rules, or an internal
/// inconsistency met while checking them.
#[derive(Debug, Clone, PartialEq)]
pub enum SemanticError {
    /// The name is already bound to a visible variable.
    DuplicateVariable { ident: Token },
    /// The name is reserved because it names a type.
    ReservedTypeName { ident: Token },
    /// No type of this name is registered.
    UnknownType { ident: Token },
    /// No visible variable has this name.
    UnknownVariable { ident: Token },
    /// An `if`/`elseif` condition whose type is not `bool`.
    NonBooleanCondition,
    /// A function of this name is already declared.
    DuplicateFunction { ident: Token },
    /// Two parameters of one function share this name.
    DuplicateArgument { ident: Token },
    /// The function body's last statement is not a `return` (nor an `if`).
    MissingReturn,
    /// A bare `return;` in a function with a declared return type.
    MismatchedReturn,
    /// Assignment to a variable declared without `mut`.
    AssignToConstant { ident: Token },
    /// `break` outside any loop.
    NotInLoop,
    /// A semantically-annotated node in the checker's input.
    UnexpectedSemantics,
    /// A binary operand whose addressing mode admits no binary operators.
    InvalidBinaryAddressing { op: TokenKind },
    /// Two operand types that do not unify (sign, bool or void mismatch).
    SignMismatch,
    /// A logical operator over a non-boolean operand.
    BooleanOperand { op: TokenKind },
    /// An arithmetic operator over a non-numeric operand.
    NumericOperand { op: TokenKind },
    /// A binary operator belonging to no operator category.
    IllegalBinaryOp { op: TokenKind },
    /// A unary operator needing primitive addressing, applied elsewhere.
    PrimitiveOperand { op: TokenKind },
    /// Arithmetic negation of an unsigned or non-numeric operand.
    SignedOperand { op: TokenKind },
    /// Address-of applied to something without storage.
    AddressableOperand { op: TokenKind },
    /// Dereference of a non-pointer.
    PointerOperand { op: TokenKind },
    /// A token kind that is no unary operator, in unary position.
    IllegalUnaryOp { op: TokenKind },
    /// Struct or union semantics: designed for, not implemented.
    Unimplemented,
    /// Source and destination of an assignment differ in addressing mode.
    AddressingMismatch,
    /// The assigned expression is wider than the destination.
    NarrowingAssign { ident: Token, var_width: usize, expr_width: usize },
    /// A token that should carry a literal payload does not.
    MissingValue,
    /// An internal consistency failure (a dangling index, a bad pop).
    Internal,
}

/// Mathematical model of a [`SemanticError`].
pub enum SemanticErrorModel {
    DuplicateVariable { ident: TokenModel },
    ReservedTypeName { ident: TokenModel },
    UnknownType { ident: TokenModel },
    UnknownVariable { ident: TokenModel },
    NonBooleanCondition,
    DuplicateFunction { ident: TokenModel },
    DuplicateArgument { ident: TokenModel },
    MissingReturn,
    MismatchedReturn,
    AssignToConstant { ident: TokenModel },
    NotInLoop,
    UnexpectedSemantics,
    InvalidBinaryAddressing { op: TokenKind },
    SignMismatch,
    BooleanOperand { op: TokenKind },
    NumericOperand { op: TokenKind },
    IllegalBinaryOp { op: TokenKind },
    PrimitiveOperand { op: TokenKind },
    SignedOperand { op: TokenKind },
    AddressableOperand { op: TokenKind },
    PointerOperand { op: TokenKind },
    IllegalUnaryOp { op: TokenKind },
    Unimplemented,
    AddressingMismatch,
    NarrowingAssign { ident: TokenModel, var_width: usize, expr_width: usize },
    MissingValue,
    Internal,
}

impl View for SemanticError {
    type V = SemanticErrorModel;

    open spec fn view(&self) -> SemanticErrorModel {
        match *self {
            SemanticError::DuplicateVariable { ref ident } => SemanticErrorModel::DuplicateVariable { ident: ident@ },
            SemanticError::ReservedTypeName { ref ident } => SemanticErrorModel::ReservedTypeName { ident: ident@ },
            SemanticError::UnknownType { ref ident } => SemanticErrorModel::UnknownType { ident: ident@ },
            SemanticError::UnknownVariable { ref ident } => SemanticErrorModel::UnknownVariable { ident: ident@ },
            SemanticError::NonBooleanCondition => SemanticErrorModel::NonBooleanCondition,
            SemanticError::DuplicateFunction { ref ident } => SemanticErrorModel::DuplicateFunction { ident: ident@ },
            SemanticError::DuplicateArgument { ref ident } => SemanticErrorModel::DuplicateArgument { ident: ident@ },
            SemanticError::MissingReturn => SemanticErrorModel::MissingReturn,
            SemanticError::MismatchedReturn => SemanticErrorModel::MismatchedReturn,
            SemanticError::AssignToConstant { ref ident } => SemanticErrorModel::AssignToConstant { ident: ident@ },
            SemanticError::NotInLoop => SemanticErrorModel::NotInLoop,
            SemanticError::UnexpectedSemantics => SemanticErrorModel::UnexpectedSemantics,
            SemanticError::InvalidBinaryAddressing { op } => SemanticErrorModel::InvalidBinaryAddressing { op },
            SemanticError::SignMismatch => SemanticErrorModel::SignMismatch,
            SemanticError::BooleanOperand { op } => SemanticErrorModel::BooleanOperand { op },
            SemanticError::NumericOperand { op } => SemanticErrorModel::NumericOperand { op },
            SemanticError::IllegalBinaryOp { op } => SemanticErrorModel::IllegalBinaryOp { op },
            SemanticError::PrimitiveOperand { op } => SemanticErrorModel::PrimitiveOperand { op },
            SemanticError::SignedOperand { op } => SemanticErrorModel::SignedOperand { op },
            SemanticError::AddressableOperand { op } => SemanticErrorModel::AddressableOperand { op },
            SemanticError::PointerOperand { op } => SemanticErrorModel::PointerOperand { op },
            SemanticError::IllegalUnaryOp { op } => SemanticErrorModel::IllegalUnaryOp { op },
            SemanticError::Unimplemented => SemanticErrorModel::Unimplemented,
            SemanticError::AddressingMismatch => SemanticErrorModel::AddressingMismatch,
            SemanticError::NarrowingAssign { ref ident, var_width, expr_width } => SemanticErrorModel::NarrowingAssign { ident: ident@, var_width, expr_width },
            SemanticError::MissingValue => SemanticErrorModel::MissingValue,
            SemanticError::Internal => SemanticErrorModel::Internal,
        }
    }
}

/// A failure while lowering the annotated tree to assembly text.
#[derive(Debug, Clone, PartialEq)]
pub enum CodegenError {
    /// No variable of this name is live in the generator's scope stack.
    UnknownVariable { ident: Token },
    /// A declaration whose name is already live.
    Redeclaration { ident: Token },
    /// The fixed scratch-register pool is exhausted.
    OutOfRegisters,
    /// The label counter is exhausted.
    TooManyLabels,
    /// The stack frame outgrew its addressable range.
    FrameOverflow,
    /// A stack operand whose width is not 1, 2, 4 or 8 bytes.
    InvalidWidth { width: usize },
    /// A token that should carry a literal payload does not.
    MissingValue,
    /// `break` with no enclosing loop's end label recorded.
    NoLoopLabel,
    /// An `elseif`/`else` with no enclosing chain's end label recorded.
    NoEndifLabel,
    /// Function and return lowering: designed for, not implemented.
    Unimplemented,
    /// A syntax-only node reached the generator.
    UnexpectedStatement,
    /// An internal consistency failure (a bad pop, a dangling index).
    Internal,
}

/// Mathematical model of a [`CodegenError`].
pub enum CodegenErrorModel {
    UnknownVariable { ident: TokenModel },
    Redeclaration { ident: TokenModel },
    OutOfRegisters,
    TooManyLabels,
    FrameOverflow,
    InvalidWidth { width: usize },
    MissingValue,
    NoLoopLabel,
    NoEndifLabel,
    Unimplemented,
    UnexpectedStatement,
    Internal,
}

impl View for CodegenError {
    type V = CodegenErrorModel;

    open spec fn view(&self) -> CodegenErrorModel {
        match *self {
            CodegenError::UnknownVariable { ref ident } => CodegenErrorModel::UnknownVariable { ident: ident@ },
            CodegenError::Redeclaration { ref ident } => CodegenErrorModel::Redeclaration { ident: ident@ },
            CodegenError::OutOfRegisters => CodegenErrorModel::OutOfRegisters,
            CodegenError::TooManyLabels => CodegenErrorModel::TooManyLabels,
            CodegenError::FrameOverflow => CodegenErrorModel::FrameOverflow,
            CodegenError::InvalidWidth { width } => CodegenErrorModel::InvalidWidth { width },
            CodegenError::MissingValue => CodegenErrorModel::MissingValue,
            CodegenError::NoLoopLabel => CodegenErrorModel::NoLoopLabel,
            CodegenError::NoEndifLabel => CodegenErrorModel::NoEndifLabel,
            CodegenError::Unimplemented => CodegenErrorModel::Unimplemented,
            CodegenError::UnexpectedStatement => CodegenErrorModel::UnexpectedStatement,
            CodegenError::Internal => CodegenErrorModel::Internal,
        }
    }
}

} // verus!
