//! Lexical analysis: source text to tokens.
//!
//! The lexer classifies each character, accumulates runs of one class, and
//! flushes a run into a token on class change. Words are checked against the
//! keyword table; symbol runs are matched by maximal munch (longest operator
//! first, dropping one trailing character per retry). Comment markers are
//! recognized as tokens but never emitted; they toggle suppression instead.

use vstd::prelude::*;
use crate::errors::LexicalError;
use crate::errors::SyntaxError;

verus! {

/// The lexical category of a token.
#[derive(Debug, Clone, Copy, PartialEq, Eq, Structural)]
pub enum TokenKind {
    // Generic symbols
    Comma,
    Colon,
    SemiColon,
    OpenParen,
    CloseParen,
    LineComment,
    OpenBrace,
    CloseBrace,
    OpenMultiComment,
    CloseMultiComment,
    // Operators
    Array,
    Ptr,
    Eq,
    Add,
    Sub,
    Mul,
    Quo,
    Mod,
    Ampersand,
    Bar,
    Tilde,
    AndNot,
    Shl,
    Shr,
    Arrow,
    // Compound assignment
    AddEq,
    SubEq,
    MulEq,
    QuoEq,
    ModEq,
    AndEq,
    OrEq,
    XorEq,
    AndNotEq,
    ShlEq,
    ShrEq,
    // Comparison and logic
    CmpAnd,
    CmpOr,
    CmpEq,
    CmpNot,
    NotEq,
    Lt,
    Gt,
    LtEq,
    GtEq,
    // Keywords
    Exit,
    Let,
    If,
    Else,
    While,
    Break,
    Mut,
    Fn,
    Return,
    True,
    False,
    // Primitive constructs
    Ident,
    IntLit,
}

/// Which side binds first when one operator repeats.
#[derive(Debug, Clone, Copy, PartialEq, Eq, Structural)]
pub enum Associativity {
    Left,
    Right,
}

/// The operator categories a token kind belongs to.
#[derive(Debug, Clone, Copy, PartialEq, Eq, Structural)]
pub struct TokenFlags {
    pub assign: bool,
    pub arith: bool,
    pub cmp: bool,
    pub log: bool,
    pub bit: bool,
    pub unary: bool,
}

/// Builds a flag set from its six categories.
pub open spec fn tf(assign: bool, arith: bool, cmp: bool, log: bool, bit: bool, unary: bool) -> TokenFlags {
    TokenFlags { assign, arith, cmp, log, bit, unary }
}

/// True when every category set in `b` is also set in `a`.
pub open spec fn flag_contains(a: TokenFlags, b: TokenFlags) -> bool {
    &&& (b.assign ==> a.assign)
    &&& (b.arith ==> a.arith)
    &&& (b.cmp ==> a.cmp)
    &&& (b.log ==> a.log)
    &&& (b.bit ==> a.bit)
    &&& (b.unary ==> a.unary)
}

impl TokenFlags {
    /// The empty flag set.
    pub fn empty() -> (r: TokenFlags)
        ensures
            r == tf(false, false, false, false, false, false),
    {
        TokenFlags { assign: false, arith: false, cmp: false, log: false, bit: false, unary: false }
    }

    /// The assignment category alone.
    pub fn assign() -> (r: TokenFlags)
        ensures
            r == tf(true, false, false, false, false, false),
    {
        TokenFlags { assign: true, arith: false, cmp: false, log: false, bit: false, unary: false }
    }

    /// The arithmetic category alone.
    pub fn arith() -> (r: TokenFlags)
        ensures
            r == tf(false, true, false, false, false, false),
    {
        TokenFlags { assign: false, arith: true, cmp: false, log: false, bit: false, unary: false }
    }

    /// The comparison category alone.
    pub fn cmp() -> (r: TokenFlags)
        ensures
            r == tf(false, false, true, false, false, false),
    {
        TokenFlags { assign: false, arith: false, cmp: true, log: false, bit: false, unary: false }
    }

    /// The logical category alone.
    pub fn log() -> (r: TokenFlags)
        ensures
            r == tf(false, false, false, true, false, false),
    {
        TokenFlags { assign: false, arith: false, cmp: false, log: true, bit: false, unary: false }
    }

    /// The bitwise category alone.
    pub fn bit() -> (r: TokenFlags)
        ensures
            r == tf(false, false, false, false, true, false),
    {
        TokenFlags { assign: false, arith: false, cmp: false, log: false, bit: true, unary: false }
    }

    /// The unary category alone.
    pub fn unary() -> (r: TokenFlags)
        ensures
            r == tf(false, false, false, false, false, true),
    {
        TokenFlags { assign: false, arith: false, cmp: false, log: false, bit: false, unary: true }
    }

    /// True when every category set in `other` is also set in `self`.
    pub fn contains(&self, other: TokenFlags) -> (r: bool)
        ensures
            r == flag_contains(*self, other),
    {
        (!other.assign || self.assign)
        && (!other.arith || self.arith)
        && (!other.cmp || self.cmp)
        && (!other.log || self.log)
        && (!other.bit || self.bit)
        && (!other.unary || self.unary)
    }
}

/// The operator categories of each token kind.
pub open spec fn flags_of(k: TokenKind) -> TokenFlags {
    match k {
        TokenKind::Ptr => tf(false, false, false, false, false, true),
        TokenKind::Eq => tf(true, false, false, false, false, false),
        TokenKind::Add => tf(false, true, false, false, false, false),
        TokenKind::Sub => tf(false, true, false, false, false, true),
        TokenKind::Mul => tf(false, true, false, false, false, false),
        TokenKind::Quo => tf(false, true, false, false, false, false),
        TokenKind::Mod => tf(false, true, false, false, false, false),
        TokenKind::Ampersand => tf(false, false, false, false, true, true),
        TokenKind::Bar => tf(false, false, false, false, true, false),
        TokenKind::Tilde => tf(false, false, false, false, true, true),
        TokenKind::AndNot => tf(false, false, false, false, true, false),
        TokenKind::Shl => tf(false, false, false, false, true, false),
        TokenKind::Shr => tf(false, false, false, false, true, false),
        TokenKind::AddEq => tf(true, true, false, false, false, false),
        TokenKind::SubEq => tf(true, true, false, false, false, false),
        TokenKind::MulEq => tf(true, true, false, false, false, false),
        TokenKind::QuoEq => tf(true, true, false, false, false, false),
        TokenKind::ModEq => tf(true, true, false, false, false, false),
        TokenKind::AndEq => tf(true, false, false, false, true, false),
        TokenKind::OrEq => tf(true, false, false, false, true, false),
        TokenKind::XorEq => tf(true, false, false, false, true, false),
        TokenKind::AndNotEq => tf(true, false, false, false, true, false),
        TokenKind::ShlEq => tf(true, false, false, false, true, false),
        TokenKind::ShrEq => tf(true, false, false, false, true, false),
        TokenKind::CmpNot => tf(false, false, false, true, false, true),
        TokenKind::CmpAnd => tf(false, false, true, true, false, false),
        TokenKind::CmpOr => tf(false, false, true, true, false, false),
        TokenKind::CmpEq => tf(false, false, true, false, false, false),
        TokenKind::NotEq => tf(false, false, true, false, false, false),
        TokenKind::Lt => tf(false, false, true, false, false, false),
        TokenKind::Gt => tf(false, false, true, false, false, false),
        TokenKind::LtEq => tf(false, false, true, false, false, false),
        TokenKind::GtEq => tf(false, false, true, false, false, false),
        _ => tf(false, false, false, false, false, false),
    }
}

/// The binding strength of a kind used as a binary operator; kinds with no
/// binary role sit far below every real precedence, so they end a climb.
pub open spec fn binary_prec_of(k: TokenKind) -> int {
    if k == TokenKind::Mul || k == TokenKind::Quo || k == TokenKind::Mod {
        12
    } else if k == TokenKind::Sub || k == TokenKind::Add {
        11
    } else if k == TokenKind::Shl || k == TokenKind::Shr {
        10
    } else if k == TokenKind::Lt || k == TokenKind::LtEq || k == TokenKind::Gt || k == TokenKind::GtEq {
        9
    } else if k == TokenKind::CmpEq || k == TokenKind::NotEq {
        8
    } else if k == TokenKind::Ampersand {
        7
    } else if k == TokenKind::Tilde {
        6
    } else if k == TokenKind::Bar {
        5
    } else if k == TokenKind::CmpAnd {
        3
    } else if k == TokenKind::CmpOr {
        2
    } else if flags_of(k).assign {
        1
    } else if k == TokenKind::Comma {
        0
    } else {
        -100
    }
}

/// The binding strength of a kind used as a prefix unary operator.
pub open spec fn unary_prec_of(k: TokenKind) -> int {
    if flags_of(k).unary {
        13
    } else {
        -100
    }
}

/// The plain operator that a compound-assignment operator applies.
pub open spec fn arith_of_assign(k: TokenKind) -> Option<TokenKind> {
    match k {
        TokenKind::AddEq => Some(TokenKind::Add),
        TokenKind::SubEq => Some(TokenKind::Sub),
        TokenKind::MulEq => Some(TokenKind::Mul),
        TokenKind::QuoEq => Some(TokenKind::Quo),
        TokenKind::ModEq => Some(TokenKind::Mod),
        TokenKind::AndEq => Some(TokenKind::Ampersand),
        TokenKind::OrEq => Some(TokenKind::Bar),
        TokenKind::XorEq => Some(TokenKind::Tilde),
        TokenKind::AndNotEq => Some(TokenKind::AndNot),
        TokenKind::ShlEq => Some(TokenKind::Shl),
        TokenKind::ShrEq => Some(TokenKind::Shr),
        _ => None,
    }
}

/// How a kind associates: assignment and unary use right, the rest left.
pub open spec fn associativity_of(k: TokenKind, is_unary: bool) -> Associativity {
    if flags_of(k).assign {
        Associativity::Right
    } else if is_unary {
        Associativity::Right
    } else {
        Associativity::Left
    }
}

impl TokenKind {
    /// The operator categories of this kind.
    pub fn get_flags(&self) -> (r: TokenFlags)
        ensures
            r == flags_of(*self),
    {
        match self {
            TokenKind::Ptr => TokenFlags { assign: false, arith: false, cmp: false, log: false, bit: false, unary: true },
            TokenKind::Eq => TokenFlags { assign: true, arith: false, cmp: false, log: false, bit: false, unary: false },
            TokenKind::Add => TokenFlags { assign: false, arith: true, cmp: false, log: false, bit: false, unary: false },
            TokenKind::Sub => TokenFlags { assign: false, arith: true, cmp: false, log: false, bit: false, unary: true },
            TokenKind::Mul => TokenFlags { assign: false, arith: true, cmp: false, log: false, bit: false, unary: false },
            TokenKind::Quo => TokenFlags { assign: false, arith: true, cmp: false, log: false, bit: false, unary: false },
            TokenKind::Mod => TokenFlags { assign: false, arith: true, cmp: false, log: false, bit: false, unary: false },
            TokenKind::Ampersand => TokenFlags { assign: false, arith: false, cmp: false, log: false, bit: true, unary: true },
            TokenKind::Bar => TokenFlags { assign: false, arith: false, cmp: false, log: false, bit: true, unary: false },
            TokenKind::Tilde => TokenFlags { assign: false, arith: false, cmp: false, log: false, bit: true, unary: true },
            TokenKind::AndNot => TokenFlags { assign: false, arith: false, cmp: false, log: false, bit: true, unary: false },
            TokenKind::Shl => TokenFlags { assign: false, arith: false, cmp: false, log: false, bit: true, unary: false },
            TokenKind::Shr => TokenFlags { assign: false, arith: false, cmp: false, log: false, bit: true, unary: false },
            TokenKind::AddEq => TokenFlags { assign: true, arith: true, cmp: false, log: false, bit: false, unary: false },
            TokenKind::SubEq => TokenFlags { assign: true, arith: true, cmp: false, log: false, bit: false, unary: false },
            TokenKind::MulEq => TokenFlags { assign: true, arith: true, cmp: false, log: false, bit: false, unary: false },
            TokenKind::QuoEq => TokenFlags { assign: true, arith: true, cmp: false, log: false, bit: false, unary: false },
            TokenKind::ModEq => TokenFlags { assign: true, arith: true, cmp: false, log: false, bit: false, unary: false },
            TokenKind::AndEq => TokenFlags { assign: true, arith: false, cmp: false, log: false, bit: true, unary: false },
            TokenKind::OrEq => TokenFlags { assign: true, arith: false, cmp: false, log: false, bit: true, unary: false },
            TokenKind::XorEq => TokenFlags { assign: true, arith: false, cmp: false, log: false, bit: true, unary: false },
            TokenKind::AndNotEq => TokenFlags { assign: true, arith: false, cmp: false, log: false, bit: true, unary: false },
            TokenKind::ShlEq => TokenFlags { assign: true, arith: false, cmp: false, log: false, bit: true, unary: false },
            TokenKind::ShrEq => TokenFlags { assign: true, arith: false, cmp: false, log: false, bit: true, unary: false },
            TokenKind::CmpNot => TokenFlags { assign: false, arith: false, cmp: false, log: true, bit: false, unary: true },
            TokenKind::CmpAnd => TokenFlags { assign: false, arith: false, cmp: true, log: true, bit: false, unary: false },
            TokenKind::CmpOr => TokenFlags { assign: false, arith: false, cmp: true, log: true, bit: false, unary: false },
            TokenKind::CmpEq => TokenFlags { assign: false, arith: false, cmp: true, log: false, bit: false, unary: false },
            TokenKind::NotEq => TokenFlags { assign: false, arith: false, cmp: true, log: false, bit: false, unary: false },
            TokenKind::Lt => TokenFlags { assign: false, arith: false, cmp: true, log: false, bit: false, unary: false },
            TokenKind::Gt => TokenFlags { assign: false, arith: false, cmp: true, log: false, bit: false, unary: false },
            TokenKind::LtEq => TokenFlags { assign: false, arith: false, cmp: true, log: false, bit: false, unary: false },
            TokenKind::GtEq => TokenFlags { assign: false, arith: false, cmp: true, log: false, bit: false, unary: false },
            _ => TokenFlags { assign: false, arith: false, cmp: false, log: false, bit: false, unary: false },
        }
    }

    /// True when this kind carries every category in `flags`.
    pub fn has_flags(&self, flags: TokenFlags) -> (r: bool)
        ensures
            r == flag_contains(flags_of(*self), flags),
    {
        self.get_flags().contains(flags)
    }

    /// The binary precedence of this kind; higher binds first.
    pub fn get_prec_binary(&self) -> (r: i32)
        ensures
            r as int == binary_prec_of(*self),
    {
        match self {
            TokenKind::Mul | TokenKind::Quo | TokenKind::Mod => 12,
            TokenKind::Sub | TokenKind::Add => 11,
            TokenKind::Shl | TokenKind::Shr => 10,
            TokenKind::Lt | TokenKind::LtEq | TokenKind::Gt | TokenKind::GtEq => 9,
            TokenKind::CmpEq | TokenKind::NotEq => 8,
            TokenKind::Ampersand => 7,
            TokenKind::Tilde => 6,
            TokenKind::Bar => 5,
            TokenKind::CmpAnd => 3,
            TokenKind::CmpOr => 2,
            _ if self.get_flags().assign => 1,
            TokenKind::Comma => 0,
            _ => -100,
        }
    }

    /// The unary precedence of this kind; unary operators bind tightest.
    pub fn get_prec_unary(&self) -> (r: i32)
        ensures
            r as int == unary_prec_of(*self),
    {
        if self.get_flags().unary {
            13
        } else {
            -100
        }
    }

    /// The plain operator that this compound-assignment operator applies.
    pub fn assign_to_arithmetic(&self) -> (r: Result<TokenKind, SyntaxError>)
        ensures
            match r {
                Ok(k) => arith_of_assign(*self) == Some(k),
                Err(e) => arith_of_assign(*self) is None
                    && e@ == crate::errors::SyntaxErrorModel::NotCompoundAssign { op: *self },
            },
    {
        match self {
            TokenKind::AddEq => Ok(TokenKind::Add),
            TokenKind::SubEq => Ok(TokenKind::Sub),
            TokenKind::MulEq => Ok(TokenKind::Mul),
            TokenKind::QuoEq => Ok(TokenKind::Quo),
            TokenKind::ModEq => Ok(TokenKind::Mod),
            TokenKind::AndEq => Ok(TokenKind::Ampersand),
            TokenKind::OrEq => Ok(TokenKind::Bar),
            TokenKind::XorEq => Ok(TokenKind::Tilde),
            TokenKind::AndNotEq => Ok(TokenKind::AndNot),
            TokenKind::ShlEq => Ok(TokenKind::Shl),
            TokenKind::ShrEq => Ok(TokenKind::Shr),
            _ => Err(SyntaxError::NotCompoundAssign { op: *self }),
        }
    }

    /// How this kind associates when it stands as an operator.
    pub fn get_associativity(&self, is_unary: bool) -> (r: Associativity)
        ensures
            r == associativity_of(*self, is_unary),
    {
        if self.get_flags().assign {
            Associativity::Right
        } else if is_unary {
            Associativity::Right
        } else {
            Associativity::Left
        }
    }
}

/// One lexed token: a kind, a literal payload for identifiers and integer
/// literals, and the (column, row) position where it ended.
#[derive(Debug, PartialEq)]
pub struct Token {
    pub kind: TokenKind,
    pub value: Option<String>,
    pub pos: (u32, u32),
}

/// Mathematical model of a [`Token`].
pub struct TokenModel {
    pub kind: TokenKind,
    pub value: Option<Seq<char>>,
    pub pos: (int, int),
}

impl View for Token {
    type V = TokenModel;

    open spec fn view(&self) -> TokenModel {
        TokenModel {
            kind: self.kind,
            value: match self.value {
                Some(s) => Some(s@),
                None => None,
            },
            pos: (self.pos.0 as int, self.pos.1 as int),
        }
    }
}

impl DeepView for Token {
    type V = TokenModel;

    open spec fn deep_view(&self) -> TokenModel {
        self.view()
    }
}

impl Clone for Token {
    fn clone(&self) -> (r: Token)
        ensures
            r == *self,
    {
        Token {
            kind: self.kind,
            value: match self.value {
                Some(ref s) => Some(s.clone()),
                None => None,
            },
            pos: self.pos,
        }
    }
}

// ---------------------------------------------------------------------------
// Character classes
// ---------------------------------------------------------------------------

/// An ASCII letter: the start of a word.
pub open spec fn is_letter(c: char) -> bool {
    ('a' as u32 <= c as u32 && c as u32 <= 'z' as u32)
    || ('A' as u32 <= c as u32 && c as u32 <= 'Z' as u32)
}

/// An ASCII decimal digit.
pub open spec fn is_digit(c: char) -> bool {
    '0' as u32 <= c as u32 && c as u32 <= '9' as u32
}

/// A character that continues a word once one has started.
pub open spec fn is_word_char(c: char) -> bool {
    is_letter(c) || is_digit(c) || c == '_'
}

/// ASCII whitespace other than the newline, which has its own class.
pub open spec fn is_space(c: char) -> bool {
    c == ' ' || c == '\t' || c == '\r' || c as u32 == 0x0C
}

/// ASCII punctuation: the class that operator runs are built from.
pub open spec fn is_symbol_char(c: char) -> bool {
    ('!' as u32 <= c as u32 && c as u32 <= '/' as u32)
    || (':' as u32 <= c as u32 && c as u32 <= '@' as u32)
    || ('[' as u32 <= c as u32 && c as u32 <= '`' as u32)
    || ('{' as u32 <= c as u32 && c as u32 <= '~' as u32)
}

fn letter_char(c: char) -> (r: bool)
    ensures
        r == is_letter(c),
{
    ('a' as u32 <= c as u32 && c as u32 <= 'z' as u32)
    || ('A' as u32 <= c as u32 && c as u32 <= 'Z' as u32)
}

fn digit_char(c: char) -> (r: bool)
    ensures
        r == is_digit(c),
{
    '0' as u32 <= c as u32 && c as u32 <= '9' as u32
}

fn word_char(c: char) -> (r: bool)
    ensures
        r == is_word_char(c),
{
    letter_char(c) || digit_char(c) || c == '_'
}

fn space_char(c: char) -> (r: bool)
    ensures
        r == is_space(c),
{
    c == ' ' || c == '\t' || c == '\r' || c as u32 == 0x0C
}

fn symbol_char(c: char) -> (r: bool)
    ensures
        r == is_symbol_char(c),
{
    ('!' as u32 <= c as u32 && c as u32 <= '/' as u32)
    || (':' as u32 <= c as u32 && c as u32 <= '@' as u32)
    || ('[' as u32 <= c as u32 && c as u32 <= '`' as u32)
    || ('{' as u32 <= c as u32 && c as u32 <= '~' as u32)
}

// ---------------------------------------------------------------------------
// Runs of one class
// ---------------------------------------------------------------------------

/// Where the word run that is open at `i` ends.
pub open spec fn word_run_end(s: Seq<char>, i: int) -> int
    decreases s.len() - i,
{
    if 0 <= i < s.len() && is_word_char(s[i]) {
        word_run_end(s, i + 1)
    } else {
        i
    }
}

/// Where the digit run that is open at `i` ends; underscores continue it.
pub open spec fn num_run_end(s: Seq<char>, i: int) -> int
    decreases s.len() - i,
{
    if 0 <= i < s.len() && (is_digit(s[i]) || s[i] == '_') {
        num_run_end(s, i + 1)
    } else {
        i
    }
}

/// Where the symbol run that is open at `i` ends.
pub open spec fn sym_run_end(s: Seq<char>, i: int) -> int
    decreases s.len() - i,
{
    if 0 <= i < s.len() && is_symbol_char(s[i]) {
        sym_run_end(s, i + 1)
    } else {
        i
    }
}

pub proof fn lemma_word_run_end(s: Seq<char>, i: int)
    requires
        0 <= i <= s.len(),
    ensures
        i <= word_run_end(s, i) <= s.len(),
    decreases s.len() - i,
{
    if i < s.len() && is_word_char(s[i]) {
        lemma_word_run_end(s, i + 1);
    }
}

pub proof fn lemma_num_run_end(s: Seq<char>, i: int)
    requires
        0 <= i <= s.len(),
    ensures
        i <= num_run_end(s, i) <= s.len(),
    decreases s.len() - i,
{
    if i < s.len() && (is_digit(s[i]) || s[i] == '_') {
        lemma_num_run_end(s, i + 1);
    }
}

pub proof fn lemma_sym_run_end(s: Seq<char>, i: int)
    requires
        0 <= i <= s.len(),
    ensures
        i <= sym_run_end(s, i) <= s.len(),
    decreases s.len() - i,
{
    if i < s.len() && is_symbol_char(s[i]) {
        lemma_sym_run_end(s, i + 1);
    }
}

fn scan_word(input: &Vec<char>, i: usize) -> (j: usize)
    requires
        i <= input@.len(),
    ensures
        j as int == word_run_end(input@, i as int),
        i <= j <= input@.len(),
    decreases input@.len() - i,
{
    if i < input.len() && word_char(input[i]) {
        scan_word(input, i + 1)
    } else {
        i
    }
}

fn scan_num(input: &Vec<char>, i: usize) -> (j: usize)
    requires
        i <= input@.len(),
    ensures
        j as int == num_run_end(input@, i as int),
        i <= j <= input@.len(),
    decreases input@.len() - i,
{
    if i < input.len() && (digit_char(input[i]) || input[i] == '_') {
        scan_num(input, i + 1)
    } else {
        i
    }
}

fn scan_sym(input: &Vec<char>, i: usize) -> (j: usize)
    requires
        i <= input@.len(),
    ensures
        j as int == sym_run_end(input@, i as int),
        i <= j <= input@.len(),
    decreases input@.len() - i,
{
    if i < input.len() && symbol_char(input[i]) {
        scan_sym(input, i + 1)
    } else {
        i
    }
}

// ---------------------------------------------------------------------------
// Token text
// ---------------------------------------------------------------------------

/// The characters of a digit run with the underscore separators dropped.
pub open spec fn digits_only(s: Seq<char>) -> Seq<char>
    decreases s.len(),
{
    if s.len() == 0 {
        Seq::empty()
    } else if s.last() == '_' {
        digits_only(s.drop_last())
    } else {
        digits_only(s.drop_last()).push(s.last())
    }
}

/// Relies on String::push: appends exactly the one character.
#[verifier::external_body]
pub(crate) fn push_char(s: &mut String, c: char)
    ensures
        final(s)@ == old(s)@.push(c),
{
    s.push(c);
}

/// Copies `input[i..j]` into a fresh string.
fn collect_chars(input: &Vec<char>, i: usize, j: usize) -> (s: String)
    requires
        i <= j && j <= input@.len(),
    ensures
        s@ == input@.subrange(i as int, j as int),
{
    let mut s = String::new();
    let mut k: usize = i;
    while k < j
        invariant
            i <= k <= j <= input@.len(),
            s@ == input@.subrange(i as int, k as int),
        decreases j - k,
    {
        push_char(&mut s, input[k]);
        proof {
            assert(input@.subrange(i as int, k as int).push(input@[k as int])
                =~= input@.subrange(i as int, k + 1 as int));
        }
        k += 1;
    }
    proof {
        assert(s@ =~= input@.subrange(i as int, j as int));
    }
    s
}

/// Copies the digits of `input[i..j]` into a fresh string, dropping `_`.
fn collect_digits(input: &Vec<char>, i: usize, j: usize) -> (s: String)
    requires
        i <= j && j <= input@.len(),
    ensures
        s@ == digits_only(input@.subrange(i as int, j as int)),
{
    let mut s = String::new();
    let mut k: usize = i;
    while k < j
        invariant
            i <= k <= j <= input@.len(),
            s@ == digits_only(input@.subrange(i as int, k as int)),
        decreases j - k,
    {
        if input[k] != '_' {
            push_char(&mut s, input[k]);
        }
        proof {
            assert(input@.subrange(i as int, k + 1 as int).drop_last()
                =~= input@.subrange(i as int, k as int));
        }
        k += 1;
    }
    s
}

// ---------------------------------------------------------------------------
// Keyword and operator tables
// ---------------------------------------------------------------------------

/// The keyword that a word spells, if any.
pub open spec fn keyword_kind(w: Seq<char>) -> Option<TokenKind> {
    if w.len() == 2 && w[0] == 'f' && w[1] == 'n' {
        Some(TokenKind::Fn)
    } else if w.len() == 2 && w[0] == 'i' && w[1] == 'f' {
        Some(TokenKind::If)
    } else if w.len() == 3 && w[0] == 'l' && w[1] == 'e' && w[2] == 't' {
        Some(TokenKind::Let)
    } else if w.len() == 3 && w[0] == 'm' && w[1] == 'u' && w[2] == 't' {
        Some(TokenKind::Mut)
    } else if w.len() == 4 && w[0] == 'e' && w[1] == 'x' && w[2] == 'i' && w[3] == 't' {
        Some(TokenKind::Exit)
    } else if w.len() == 4 && w[0] == 'e' && w[1] == 'l' && w[2] == 's' && w[3] == 'e' {
        Some(TokenKind::Else)
    } else if w.len() == 4 && w[0] == 't' && w[1] == 'r' && w[2] == 'u' && w[3] == 'e' {
        Some(TokenKind::True)
    } else if w.len() == 5 && w[0] == 'w' && w[1] == 'h' && w[2] == 'i' && w[3] == 'l' && w[4] == 'e' {
        Some(TokenKind::While)
    } else if w.len() == 5 && w[0] == 'b' && w[1] == 'r' && w[2] == 'e' && w[3] == 'a' && w[4] == 'k' {
        Some(TokenKind::Break)
    } else if w.len() == 5 && w[0] == 'f' && w[1] == 'a' && w[2] == 'l' && w[3] == 's' && w[4] == 'e' {
        Some(TokenKind::False)
    } else if w.len() == 6 && w[0] == 'r' && w[1] == 'e' && w[2] == 't' && w[3] == 'u' && w[4] == 'r'
        && w[5] == 'n' {
        Some(TokenKind::Return)
    } else {
        None
    }
}

/// The keyword spelled by `input[i..j]`, if any.
fn match_word(input: &Vec<char>, i: usize, j: usize) -> (r: Option<TokenKind>)
    requires
        i <= j && j <= input@.len(),
    ensures
        r == keyword_kind(input@.subrange(i as int, j as int)),
{
    let n = j - i;
    if n == 2 {
        if input[i] == 'f' && input[i + 1] == 'n' {
            Some(TokenKind::Fn)
        } else if input[i] == 'i' && input[i + 1] == 'f' {
            Some(TokenKind::If)
        } else {
            None
        }
    } else if n == 3 {
        if input[i] == 'l' && input[i + 1] == 'e' && input[i + 2] == 't' {
            Some(TokenKind::Let)
        } else if input[i] == 'm' && input[i + 1] == 'u' && input[i + 2] == 't' {
            Some(TokenKind::Mut)
        } else {
            None
        }
    } else if n == 4 {
        if input[i] == 'e' && input[i + 1] == 'x' && input[i + 2] == 'i' && input[i + 3] == 't' {
            Some(TokenKind::Exit)
        } else if input[i] == 'e' && input[i + 1] == 'l' && input[i + 2] == 's' && input[i + 3] == 'e' {
            Some(TokenKind::Else)
        } else if input[i] == 't' && input[i + 1] == 'r' && input[i + 2] == 'u' && input[i + 3] == 'e' {
            Some(TokenKind::True)
        } else {
            None
        }
    } else if n == 5 {
        if input[i] == 'w' && input[i + 1] == 'h' && input[i + 2] == 'i' && input[i + 3] == 'l'
            && input[i + 4] == 'e' {
            Some(TokenKind::While)
        } else if input[i] == 'b' && input[i + 1] == 'r' && input[i + 2] == 'e' && input[i + 3] == 'a'
            && input[i + 4] == 'k' {
            Some(TokenKind::Break)
        } else if input[i] == 'f' && input[i + 1] == 'a' && input[i + 2] == 'l' && input[i + 3] == 's'
            && input[i + 4] == 'e' {
            Some(TokenKind::False)
        } else {
            None
        }
    } else if n == 6 {
        if input[i] == 'r' && input[i + 1] == 'e' && input[i + 2] == 't' && input[i + 3] == 'u'
            && input[i + 4] == 'r' && input[i + 5] == 'n' {
            Some(TokenKind::Return)
        } else {
            None
        }
    } else {
        None
    }
}

/// The operator spelled by one symbol character.
pub open spec fn symbol1_kind(c: char) -> Option<TokenKind> {
    match c {
        ',' => Some(TokenKind::Comma),
        ':' => Some(TokenKind::Colon),
        ';' => Some(TokenKind::SemiColon),
        '(' => Some(TokenKind::OpenParen),
        ')' => Some(TokenKind::CloseParen),
        '{' => Some(TokenKind::OpenBrace),
        '}' => Some(TokenKind::CloseBrace),
        '!' => Some(TokenKind::CmpNot),
        '^' => Some(TokenKind::Ptr),
        '=' => Some(TokenKind::Eq),
        '+' => Some(TokenKind::Add),
        '-' => Some(TokenKind::Sub),
        '*' => Some(TokenKind::Mul),
        '/' => Some(TokenKind::Quo),
        '%' => Some(TokenKind::Mod),
        '&' => Some(TokenKind::Ampersand),
        '|' => Some(TokenKind::Bar),
        '~' => Some(TokenKind::Tilde),
        '<' => Some(TokenKind::Lt),
        '>' => Some(TokenKind::Gt),
        _ => None,
    }
}

/// The operator spelled by two symbol characters.
pub open spec fn symbol2_kind(a: char, b: char) -> Option<TokenKind> {
    if a == '/' && b == '/' {
        Some(TokenKind::LineComment)
    } else if a == '/' && b == '*' {
        Some(TokenKind::OpenMultiComment)
    } else if a == '*' && b == '/' {
        Some(TokenKind::CloseMultiComment)
    } else if a == '&' && b == '~' {
        Some(TokenKind::AndNot)
    } else if a == '<' && b == '<' {
        Some(TokenKind::Shl)
    } else if a == '>' && b == '>' {
        Some(TokenKind::Shr)
    } else if a == '-' && b == '>' {
        Some(TokenKind::Arrow)
    } else if a == '+' && b == '=' {
        Some(TokenKind::AddEq)
    } else if a == '-' && b == '=' {
        Some(TokenKind::SubEq)
    } else if a == '*' && b == '=' {
        Some(TokenKind::MulEq)
    } else if a == '/' && b == '=' {
        Some(TokenKind::QuoEq)
    } else if a == '%' && b == '=' {
        Some(TokenKind::ModEq)
    } else if a == '&' && b == '=' {
        Some(TokenKind::AndEq)
    } else if a == '|' && b == '=' {
        Some(TokenKind::OrEq)
    } else if a == '~' && b == '=' {
        Some(TokenKind::XorEq)
    } else if a == '&' && b == '&' {
        Some(TokenKind::CmpAnd)
    } else if a == '|' && b == '|' {
        Some(TokenKind::CmpOr)
    } else if a == '=' && b == '=' {
        Some(TokenKind::CmpEq)
    } else if a == '!' && b == '=' {
        Some(TokenKind::NotEq)
    } else if a == '<' && b == '=' {
        Some(TokenKind::LtEq)
    } else if a == '>' && b == '=' {
        Some(TokenKind::GtEq)
    } else {
        None
    }
}

/// The operator spelled by three symbol characters.
pub open spec fn symbol3_kind(a: char, b: char, c: char) -> Option<TokenKind> {
    if a == '&' && b == '~' && c == '=' {
        Some(TokenKind::AndNotEq)
    } else if a == '<' && b == '<' && c == '=' {
        Some(TokenKind::ShlEq)
    } else if a == '>' && b == '>' && c == '=' {
        Some(TokenKind::ShrEq)
    } else {
        None
    }
}

/// The operator that a symbol run spells, if any.
pub open spec fn symbol_kind(w: Seq<char>) -> Option<TokenKind> {
    if w.len() == 1 {
        symbol1_kind(w[0])
    } else if w.len() == 2 {
        symbol2_kind(w[0], w[1])
    } else if w.len() == 3 {
        symbol3_kind(w[0], w[1], w[2])
    } else {
        None
    }
}

/// The operator spelled by `input[i..i + k]`, if any.
fn match_symbol(input: &Vec<char>, i: usize, k: usize) -> (r: Option<TokenKind>)
    requires
        i + k <= input@.len(),
    ensures
        r == symbol_kind(input@.subrange(i as int, i + k as int)),
{
    let n = input.len();
    if k == 1 {
        match input[i] {
            ',' => Some(TokenKind::Comma),
            ':' => Some(TokenKind::Colon),
            ';' => Some(TokenKind::SemiColon),
            '(' => Some(TokenKind::OpenParen),
            ')' => Some(TokenKind::CloseParen),
            '{' => Some(TokenKind::OpenBrace),
            '}' => Some(TokenKind::CloseBrace),
            '!' => Some(TokenKind::CmpNot),
            '^' => Some(TokenKind::Ptr),
            '=' => Some(TokenKind::Eq),
            '+' => Some(TokenKind::Add),
            '-' => Some(TokenKind::Sub),
            '*' => Some(TokenKind::Mul),
            '/' => Some(TokenKind::Quo),
            '%' => Some(TokenKind::Mod),
            '&' => Some(TokenKind::Ampersand),
            '|' => Some(TokenKind::Bar),
            '~' => Some(TokenKind::Tilde),
            '<' => Some(TokenKind::Lt),
            '>' => Some(TokenKind::Gt),
            _ => None,
        }
    } else if k == 2 {
        let a = input[i];
        let b = input[i + 1];
        if a == '/' && b == '/' {
            Some(TokenKind::LineComment)
        } else if a == '/' && b == '*' {
            Some(TokenKind::OpenMultiComment)
        } else if a == '*' && b == '/' {
            Some(TokenKind::CloseMultiComment)
        } else if a == '&' && b == '~' {
            Some(TokenKind::AndNot)
        } else if a == '<' && b == '<' {
            Some(TokenKind::Shl)
        } else if a == '>' && b == '>' {
            Some(TokenKind::Shr)
        } else if a == '-' && b == '>' {
            Some(TokenKind::Arrow)
        } else if a == '+' && b == '=' {
            Some(TokenKind::AddEq)
        } else if a == '-' && b == '=' {
            Some(TokenKind::SubEq)
        } else if a == '*' && b == '=' {
            Some(TokenKind::MulEq)
        } else if a == '/' && b == '=' {
            Some(TokenKind::QuoEq)
        } else if a == '%' && b == '=' {
            Some(TokenKind::ModEq)
        } else if a == '&' && b == '=' {
            Some(TokenKind::AndEq)
        } else if a == '|' && b == '=' {
            Some(TokenKind::OrEq)
        } else if a == '~' && b == '=' {
            Some(TokenKind::XorEq)
        } else if a == '&' && b == '&' {
            Some(TokenKind::CmpAnd)
        } else if a == '|' && b == '|' {
            Some(TokenKind::CmpOr)
        } else if a == '=' && b == '=' {
            Some(TokenKind::CmpEq)
        } else if a == '!' && b == '=' {
            Some(TokenKind::NotEq)
        } else if a == '<' && b == '=' {
            Some(TokenKind::LtEq)
        } else if a == '>' && b == '=' {
            Some(TokenKind::GtEq)
        } else {
            None
        }
    } else if k == 3 {
        let a = input[i];
        let b = input[i + 1];
        let c = input[i + 2];
        if a == '&' && b == '~' && c == '=' {
            Some(TokenKind::AndNotEq)
        } else if a == '<' && b == '<' && c == '=' {
            Some(TokenKind::ShlEq)
        } else if a == '>' && b == '>' && c == '=' {
            Some(TokenKind::ShrEq)
        } else {
            None
        }
    } else {
        None
    }
}

// ---------------------------------------------------------------------------
// Maximal munch
// ---------------------------------------------------------------------------

/// The length of the longest operator that prefixes the `k` symbol
/// characters starting at `i`: the whole run is tried first, then one
/// trailing character is dropped per retry.
pub open spec fn munch_from(s: Seq<char>, i: int, k: int) -> int
    decreases k,
{
    if k <= 0 {
        0
    } else if symbol_kind(s.subrange(i, i + k)).is_some() {
        k
    } else {
        munch_from(s, i, k - 1)
    }
}

pub proof fn lemma_munch_from(s: Seq<char>, i: int, k: int)
    requires
        k >= 0,
    ensures
        0 <= munch_from(s, i, k) <= k,
        munch_from(s, i, k) > 0 ==> symbol_kind(s.subrange(i, i + munch_from(s, i, k))).is_some(),
    decreases k,
{
    if k > 0 && !symbol_kind(s.subrange(i, i + k)).is_some() {
        lemma_munch_from(s, i, k - 1);
    }
}

/// Maximal munch never settles for a shorter prefix when a longer one is
/// an operator: any matching prefix length is a lower bound on the result.
pub proof fn lemma_munch_longest(s: Seq<char>, i: int, k: int, k2: int)
    requires
        0 <= k2 <= k,
        symbol_kind(s.subrange(i, i + k2)).is_some(),
    ensures
        munch_from(s, i, k) >= k2,
    decreases k,
{
    if k > k2 && !symbol_kind(s.subrange(i, i + k)).is_some() {
        lemma_munch_longest(s, i, k - 1, k2);
    }
}

/// The longest operator prefix of the `k` symbol characters at `i`.
fn munch(input: &Vec<char>, i: usize, k: usize) -> (m: usize)
    requires
        i + k <= input@.len(),
    ensures
        m as int == munch_from(input@, i as int, k as int),
        m <= k,
        m > 0 ==> symbol_kind(input@.subrange(i as int, i + m as int)).is_some(),
    decreases k,
{
    proof {
        lemma_munch_from(input@, i as int, k as int);
    }
    if k == 0 {
        0
    } else {
        match match_symbol(input, i, k) {
            Some(_) => k,
            None => munch(input, i, k - 1),
        }
    }
}

// ---------------------------------------------------------------------------
// The lexer
// ---------------------------------------------------------------------------

/// The lexer's cursor: an index into the text, the (column, row) position,
/// and the two comment-suppression states.
pub struct LexState {
    pub i: int,
    pub col: int,
    pub row: int,
    pub line_comment: bool,
    pub multi_comment: bool,
}

/// What one lexing step does: fail on an unclassifiable character, or
/// advance, possibly emitting one token.
pub enum LexStep {
    Fail(LexicalError),
    Step { emitted: Option<TokenModel>, next: LexState },
}

/// One step of the lexer at `st.i`, which must be inside the text.
pub open spec fn lex_step(s: Seq<char>, st: LexState) -> LexStep
    recommends
        0 <= st.i < s.len(),
{
    let c = s[st.i];
    if c == '\n' {
        LexStep::Step {
            emitted: None,
            next: LexState {
                i: st.i + 1,
                col: 0,
                row: st.row + 1,
                line_comment: false,
                multi_comment: st.multi_comment,
            },
        }
    } else if st.line_comment || is_space(c) {
        LexStep::Step {
            emitted: None,
            next: LexState {
                i: st.i + 1,
                col: st.col + 1,
                row: st.row,
                line_comment: st.line_comment,
                multi_comment: st.multi_comment,
            },
        }
    } else if is_digit(c) {
        let j = num_run_end(s, st.i);
        let tok = TokenModel {
            kind: TokenKind::IntLit,
            value: Some(digits_only(s.subrange(st.i, j))),
            pos: (st.col + (j - st.i), st.row),
        };
        LexStep::Step {
            emitted: if st.multi_comment {
                None
            } else {
                Some(tok)
            },
            next: LexState {
                i: j,
                col: st.col + (j - st.i),
                row: st.row,
                line_comment: st.line_comment,
                multi_comment: st.multi_comment,
            },
        }
    } else if is_letter(c) {
        let j = word_run_end(s, st.i);
        let w = s.subrange(st.i, j);
        let tok = match keyword_kind(w) {
            Some(k) => TokenModel { kind: k, value: None, pos: (st.col + (j - st.i), st.row) },
            None => TokenModel {
                kind: TokenKind::Ident,
                value: Some(w),
                pos: (st.col + (j - st.i), st.row),
            },
        };
        LexStep::Step {
            emitted: if st.multi_comment {
                None
            } else {
                Some(tok)
            },
            next: LexState {
                i: j,
                col: st.col + (j - st.i),
                row: st.row,
                line_comment: st.line_comment,
                multi_comment: st.multi_comment,
            },
        }
    } else if is_symbol_char(c) {
        let j = sym_run_end(s, st.i);
        let m = munch_from(s, st.i, j - st.i);
        if m == 0 {
            LexStep::Step {
                emitted: None,
                next: LexState {
                    i: st.i + 1,
                    col: st.col + 1,
                    row: st.row,
                    line_comment: st.line_comment,
                    multi_comment: st.multi_comment,
                },
            }
        } else {
            match symbol_kind(s.subrange(st.i, st.i + m)) {
                Some(kind) => {
                    if kind == TokenKind::LineComment {
                        LexStep::Step {
                            emitted: None,
                            next: LexState {
                                i: st.i + m,
                                col: st.col + m,
                                row: st.row,
                                line_comment: true,
                                multi_comment: st.multi_comment,
                            },
                        }
                    } else if kind == TokenKind::OpenMultiComment {
                        LexStep::Step {
                            emitted: None,
                            next: LexState {
                                i: st.i + m,
                                col: st.col + m,
                                row: st.row,
                                line_comment: st.line_comment,
                                multi_comment: true,
                            },
                        }
                    } else if kind == TokenKind::CloseMultiComment {
                        LexStep::Step {
                            emitted: None,
                            next: LexState {
                                i: st.i + m,
                                col: st.col + m,
                                row: st.row,
                                line_comment: st.line_comment,
                                multi_comment: false,
                            },
                        }
                    } else {
                        LexStep::Step {
                            emitted: if st.multi_comment {
                                None
                            } else {
                                Some(TokenModel { kind, value: None, pos: (st.col + m, st.row) })
                            },
                            next: LexState {
                                i: st.i + m,
                                col: st.col + m,
                                row: st.row,
                                line_comment: st.line_comment,
                                multi_comment: st.multi_comment,
                            },
                        }
                    }
                },
                None => LexStep::Step {
                    emitted: None,
                    next: LexState {
                        i: st.i + 1,
                        col: st.col + 1,
                        row: st.row,
                        line_comment: st.line_comment,
                        multi_comment: st.multi_comment,
                    },
                },
            }
        }
    } else {
        LexStep::Fail(LexicalError { ch: c, pos: (st.col as u32, st.row as u32) })
    }
}

/// Every step lands strictly further right, inside the text, and keeps the
/// column and row no larger than the index.
pub proof fn lemma_lex_step_in_bounds(s: Seq<char>, st: LexState)
    requires
        0 <= st.i < s.len(),
    ensures
        match lex_step(s, st) {
            LexStep::Step { next, .. } => st.i < next.i <= s.len() && (st.col <= st.i
                ==> next.col <= next.i) && (st.row <= st.i ==> next.row <= next.i),
            LexStep::Fail(_) => true,
        },
{
    let c = s[st.i];
    if c == '\n' || st.line_comment || is_space(c) {
    } else if is_digit(c) {
        assert(num_run_end(s, st.i) == num_run_end(s, st.i + 1));
        lemma_num_run_end(s, st.i + 1);
    } else if is_letter(c) {
        assert(word_run_end(s, st.i) == word_run_end(s, st.i + 1));
        lemma_word_run_end(s, st.i + 1);
    } else if is_symbol_char(c) {
        assert(sym_run_end(s, st.i) == sym_run_end(s, st.i + 1));
        lemma_sym_run_end(s, st.i + 1);
        lemma_munch_from(s, st.i, sym_run_end(s, st.i) - st.i);
    }
}

/// The tokens of the text from state `st` on, or the first lexical error.
pub open spec fn lex_from(s: Seq<char>, st: LexState) -> Result<Seq<TokenModel>, LexicalError>
    decreases s.len() - st.i,
{
    if st.i < 0 || st.i >= s.len() {
        Ok(Seq::empty())
    } else {
        match lex_step(s, st) {
            LexStep::Fail(e) => Err(e),
            LexStep::Step { emitted, next } => if st.i < next.i <= s.len() {
                match lex_from(s, next) {
                    Ok(rest) => Ok(
                        match emitted {
                            Some(t) => seq![t] + rest,
                            None => rest,
                        },
                    ),
                    Err(e) => Err(e),
                }
            } else {
                // every step advances (lemma_lex_step_in_bounds); this guard
                // only closes the termination argument
                Ok(Seq::empty())
            },
        }
    }
}

/// The flattened text of the input pieces, in order.
pub open spec fn flatten_texts(ss: Seq<Seq<char>>) -> Seq<char>
    decreases ss.len(),
{
    if ss.len() == 0 {
        Seq::empty()
    } else {
        flatten_texts(ss.drop_last()) + ss.last()
    }
}

/// The lexer: the flattened source text, a cursor into it, the current
/// (column, row), and the two comment-suppression states.
pub struct Lexer {
    pub input: Vec<char>,
    pub idx: usize,
    pub col: u32,
    pub row: u32,
    pub line_comment: bool,
    pub multi_comment: bool,
}

/// The abstract cursor state of a lexer.
pub open spec fn lex_state_of(l: Lexer) -> LexState {
    LexState {
        i: l.idx as int,
        col: l.col as int,
        row: l.row as int,
        line_comment: l.line_comment,
        multi_comment: l.multi_comment,
    }
}

impl Lexer {
    /// A lexer over the pieces of source text, flattened in order, with
    /// the cursor at the start.
    pub fn new(input: Vec<String>) -> (r: Lexer)
        ensures
            r.input@ == flatten_texts(input.deep_view()),
            r.idx == 0 && r.col == 0 && r.row == 0,
            !r.line_comment && !r.multi_comment,
    {
        let mut text: Vec<char> = Vec::new();
        let mut si: usize = 0;
        while si < input.len()
            invariant
                si <= input.len(),
                text@ == flatten_texts(input.deep_view().subrange(0, si as int)),
            decreases input.len() - si,
        {
            let s = &input[si];
            let n = s.as_str().unicode_len();
            let mut ci: usize = 0;
            while ci < n
                invariant
                    ci <= n,
                    si < input.len(),
                    n == s@.len(),
                    s == input@.index(si as int),
                    text@ == flatten_texts(input.deep_view().subrange(0, si as int)) + s@.subrange(
                        0,
                        ci as int,
                    ),
                decreases n - ci,
            {
                let c = s.as_str().get_char(ci);
                text.push(c);
                ci += 1;
                proof {
                    assert(s@.subrange(0, ci - 1 as int).push(s@[ci - 1]) =~= s@.subrange(
                        0,
                        ci as int,
                    ));
                }
            }
            si += 1;
            proof {
                let dv = input.deep_view();
                assert(dv.subrange(0, si as int).drop_last() =~= dv.subrange(0, si - 1 as int));
                assert(dv.subrange(0, si as int).last() == dv[si - 1]);
                assert(s@.subrange(0, n as int) =~= s@);
                assert(text@ == flatten_texts(dv.subrange(0, si as int)));
            }
        }
        proof {
            assert(input.deep_view().subrange(0, input@.len() as int) =~= input.deep_view());
        }
        Lexer { input: text, idx: 0, col: 0, row: 0, line_comment: false, multi_comment: false }
    }

    /// One lexing step: advances the cursor over one run and returns the
    /// token it flushed, `None` where the run flushed into nothing (space,
    /// newline, a comment or its contents), or the first lexical error.
    fn next_token(&mut self) -> (r: Result<Option<Token>, LexicalError>)
        requires
            old(self).idx < old(self).input@.len(),
            old(self).input@.len() <= 0xFFFF_FFFF,
            old(self).col as int <= old(self).idx as int,
            old(self).row as int <= old(self).idx as int,
        ensures
            final(self).input@ == old(self).input@,
            final(self).idx as int <= final(self).input@.len(),
            final(self).col as int <= final(self).idx as int,
            final(self).row as int <= final(self).idx as int,
            match r {
                Ok(em) => old(self).idx < final(self).idx && lex_step(
                    old(self).input@,
                    lex_state_of(*old(self)),
                ) == (LexStep::Step {
                    emitted: (match em {
                        Some(t) => Some(t@),
                        None => None,
                    }),
                    next: lex_state_of(*final(self)),
                }),
                Err(e) => lex_step(old(self).input@, lex_state_of(*old(self)))
                    == LexStep::Fail(e) && *final(self) == *old(self),
            },
    {
        proof {
            lemma_lex_step_in_bounds(self.input@, lex_state_of(*self));
        }
        let c = self.input[self.idx];
        if c == '\n' {
            self.idx = self.idx + 1;
            self.col = 0;
            self.row = self.row + 1;
            self.line_comment = false;
            Ok(None)
        } else if self.line_comment || space_char(c) {
            self.idx = self.idx + 1;
            self.col = self.col + 1;
            Ok(None)
        } else if digit_char(c) {
            let j = scan_num(&self.input, self.idx);
            let text = collect_digits(&self.input, self.idx, j);
            let col2 = self.col + (j - self.idx) as u32;
            let tok = Token { kind: TokenKind::IntLit, value: Some(text), pos: (col2, self.row) };
            self.idx = j;
            self.col = col2;
            if self.multi_comment {
                Ok(None)
            } else {
                Ok(Some(tok))
            }
        } else if letter_char(c) {
            let j = scan_word(&self.input, self.idx);
            let col2 = self.col + (j - self.idx) as u32;
            let tok = match match_word(&self.input, self.idx, j) {
                Some(kind) => Token { kind, value: None, pos: (col2, self.row) },
                None => Token {
                    kind: TokenKind::Ident,
                    value: Some(collect_chars(&self.input, self.idx, j)),
                    pos: (col2, self.row),
                },
            };
            self.idx = j;
            self.col = col2;
            if self.multi_comment {
                Ok(None)
            } else {
                Ok(Some(tok))
            }
        } else if symbol_char(c) {
            let j = scan_sym(&self.input, self.idx);
            let m = munch(&self.input, self.idx, j - self.idx);
            if m == 0 {
                self.idx = self.idx + 1;
                self.col = self.col + 1;
                Ok(None)
            } else {
                match match_symbol(&self.input, self.idx, m) {
                    Some(kind) => {
                        let col2 = self.col + m as u32;
                        self.idx = self.idx + m;
                        self.col = col2;
                        if kind == TokenKind::LineComment {
                            self.line_comment = true;
                            Ok(None)
                        } else if kind == TokenKind::OpenMultiComment {
                            self.multi_comment = true;
                            Ok(None)
                        } else if kind == TokenKind::CloseMultiComment {
                            self.multi_comment = false;
                            Ok(None)
                        } else if self.multi_comment {
                            Ok(None)
                        } else {
                            Ok(Some(Token { kind, value: None, pos: (col2, self.row) }))
                        }
                    },
                    None => {
                        proof {
                            assert(false);
                        }
                        Ok(None)
                    },
                }
            }
        } else {
            Err(LexicalError { ch: c, pos: (self.col, self.row) })
        }
    }

    /// Lexes the whole text from the current cursor on: the token sequence
    /// of [`lex_from`], or its first lexical error. Comment contents are
    /// discarded; identifier and integer-literal tokens carry their text.
    pub fn tokenize(&mut self) -> (r: Result<Vec<Token>, LexicalError>)
        requires
            old(self).idx as int <= old(self).input@.len(),
            old(self).input@.len() <= 0xFFFF_FFFF,
            old(self).col as int <= old(self).idx as int,
            old(self).row as int <= old(self).idx as int,
        ensures
            final(self).input@ == old(self).input@,
            match r {
                Ok(toks) => lex_from(old(self).input@, lex_state_of(*old(self))) == Ok::<
                    Seq<TokenModel>,
                    LexicalError,
                >(toks.deep_view()),
                Err(e) => lex_from(old(self).input@, lex_state_of(*old(self))) == Err::<
                    Seq<TokenModel>,
                    LexicalError,
                >(e),
            },
    {
        let ghost s = self.input@;
        let ghost st0 = lex_state_of(*self);
        let mut toks: Vec<Token> = Vec::new();
        while self.idx < self.input.len()
            invariant
                s == old(self).input@,
                st0 == lex_state_of(*old(self)),
                self.input@ == s,
                self.idx as int <= s.len(),
                s.len() <= 0xFFFF_FFFF,
                self.col as int <= self.idx as int,
                self.row as int <= self.idx as int,
                lex_from(s, st0) == (match lex_from(s, lex_state_of(*self)) {
                    Ok(rest) => Ok::<Seq<TokenModel>, LexicalError>(toks.deep_view() + rest),
                    Err(e) => Err::<Seq<TokenModel>, LexicalError>(e),
                }),
            decreases s.len() - self.idx,
        {
            let ghost st_prev = lex_state_of(*self);
            let ghost toks_prev = toks.deep_view();
            let step = self.next_token();
            match step {
                Ok(Some(t)) => {
                    toks.push(t);
                    proof {
                        assert(toks.deep_view() =~= toks_prev.push(t@));
                        let rest_prev = lex_from(s, lex_state_of(*self));
                        if rest_prev is Ok {
                            assert(toks_prev + (seq![t@] + rest_prev->Ok_0) =~= toks.deep_view()
                                + rest_prev->Ok_0);
                        }
                    }
                },
                Ok(None) => {
                },
                Err(e) => {
                    proof {
                        assert(lex_from(s, st_prev) == Err::<Seq<TokenModel>, LexicalError>(e));
                    }
                    return Err(e);
                },
            }
        }
        proof {
            assert(toks.deep_view() + Seq::<TokenModel>::empty() =~= toks.deep_view());
        }
        Ok(toks)
    }
}

impl Token {
    /// The literal payload, if this token carries one.
    pub fn as_str(&self) -> (r: Option<&str>)
        ensures
            match r {
                Some(s) => self@.value == Some(s@),
                None => self@.value is None,
            },
    {
        match self.value {
            Some(ref s) => Some(s.as_str()),
            None => None,
        }
    }
}

} // verus!
