//! Tokenizer behavior: maximal munch, literal folding, comments, errors.

use smallc::lex::{Lexer, Token, TokenKind, TokenFlags, Associativity};

fn lex(src: &str) -> Vec<Token> {
    let mut lexer = Lexer::new(vec![src.to_string()]);
    lexer.tokenize().expect("lexing failed")
}

fn kinds(src: &str) -> Vec<TokenKind> {
    lex(src).into_iter().map(|t| t.kind).collect()
}

#[test]
fn maximal_munch_shl_assign() {
    // one shift-left-assign token, never three separate tokens
    let toks = lex("<<=");
    assert_eq!(toks.len(), 1);
    assert_eq!(toks[0].kind, TokenKind::ShlEq);
}

#[test]
fn maximal_munch_longest_wins() {
    assert_eq!(kinds(">>="), vec![TokenKind::ShrEq]);
    assert_eq!(kinds("&~="), vec![TokenKind::AndNotEq]);
    assert_eq!(kinds("&&"), vec![TokenKind::CmpAnd]);
    assert_eq!(kinds("<< ="), vec![TokenKind::Shl, TokenKind::Eq]);
    // a long run backs off one character at a time
    assert_eq!(kinds(">>>="), vec![TokenKind::Shr, TokenKind::GtEq]);
}

#[test]
fn literal_folding_underscores() {
    let toks = lex("1_000_000");
    assert_eq!(toks.len(), 1);
    assert_eq!(toks[0].kind, TokenKind::IntLit);
    assert_eq!(toks[0].value.as_deref(), Some("1000000"));
}

#[test]
fn keywords_and_identifiers() {
    assert_eq!(
        kinds("let mut x9_z: u32 = 1;"),
        vec![
            TokenKind::Let,
            TokenKind::Mut,
            TokenKind::Ident,
            TokenKind::Colon,
            TokenKind::Ident,
            TokenKind::Eq,
            TokenKind::IntLit,
            TokenKind::SemiColon,
        ]
    );
    let toks = lex("while whilex");
    assert_eq!(toks[0].kind, TokenKind::While);
    assert_eq!(toks[1].kind, TokenKind::Ident);
    assert_eq!(toks[1].value.as_deref(), Some("whilex"));
}

#[test]
fn line_comment_discards_rest_of_line() {
    assert_eq!(
        kinds("exit // all of this vanishes ( ) 5\nbreak"),
        vec![TokenKind::Exit, TokenKind::Break]
    );
}

#[test]
fn block_comment_discards_tokens() {
    assert_eq!(
        kinds("exit /* a b 1 + */ break"),
        vec![TokenKind::Exit, TokenKind::Break]
    );
}

#[test]
fn unknown_character_is_a_lexical_error() {
    let mut lexer = Lexer::new(vec!["exit(\u{1}1);".to_string()]);
    let err = lexer.tokenize().expect_err("a control byte fits no class");
    assert_eq!(err.ch, '\u{1}');
}

#[test]
fn unmatched_symbol_is_skipped() {
    // `$` falls in the punctuation class but spells no operator
    assert_eq!(kinds("$+"), vec![TokenKind::Add]);
}

#[test]
fn positions_track_column_and_row() {
    let toks = lex("a\nbb c");
    assert_eq!(toks[0].pos, (1, 0));
    assert_eq!(toks[1].pos, (2, 1));
    assert_eq!(toks[2].pos, (4, 1));
}

#[test]
fn operator_flags_and_precedences() {
    assert!(TokenKind::Sub.has_flags(TokenFlags::arith()));
    assert!(TokenKind::Sub.has_flags(TokenFlags::unary()));
    assert!(!TokenKind::Add.has_flags(TokenFlags::unary()));
    assert!(TokenKind::AddEq.has_flags(TokenFlags::assign()));
    assert!(TokenKind::CmpAnd.has_flags(TokenFlags::log()));
    assert_eq!(TokenKind::Mul.get_prec_binary(), 12);
    assert_eq!(TokenKind::Add.get_prec_binary(), 11);
    assert_eq!(TokenKind::Shl.get_prec_binary(), 10);
    assert_eq!(TokenKind::Lt.get_prec_binary(), 9);
    assert_eq!(TokenKind::CmpEq.get_prec_binary(), 8);
    assert_eq!(TokenKind::Ampersand.get_prec_binary(), 7);
    assert_eq!(TokenKind::Tilde.get_prec_binary(), 6);
    assert_eq!(TokenKind::Bar.get_prec_binary(), 5);
    assert_eq!(TokenKind::CmpAnd.get_prec_binary(), 3);
    assert_eq!(TokenKind::CmpOr.get_prec_binary(), 2);
    assert_eq!(TokenKind::Eq.get_prec_binary(), 1);
    assert_eq!(TokenKind::Comma.get_prec_binary(), 0);
    assert_eq!(TokenKind::SemiColon.get_prec_binary(), -100);
    assert_eq!(TokenKind::Sub.get_prec_unary(), 13);
    assert_eq!(TokenKind::Add.get_prec_unary(), -100);
}

#[test]
fn compound_assign_desugars_to_arithmetic() {
    assert_eq!(TokenKind::AddEq.assign_to_arithmetic(), Ok(TokenKind::Add));
    assert_eq!(TokenKind::ShlEq.assign_to_arithmetic(), Ok(TokenKind::Shl));
    assert_eq!(TokenKind::XorEq.assign_to_arithmetic(), Ok(TokenKind::Tilde));
    assert!(TokenKind::Add.assign_to_arithmetic().is_err());
    assert_eq!(TokenKind::Eq.get_associativity(false), Associativity::Right);
    assert_eq!(TokenKind::Add.get_associativity(false), Associativity::Left);
    assert_eq!(TokenKind::Add.get_associativity(true), Associativity::Right);
}

#[test]
fn token_as_str_returns_the_payload() {
    let toks = lex("abc 42 +");
    assert_eq!(toks[0].as_str(), Some("abc"));
    assert_eq!(toks[1].as_str(), Some("42"));
    assert_eq!(toks[2].as_str(), None);
}

#[test]
fn input_pieces_are_flattened_in_order() {
    let mut lexer = Lexer::new(vec!["ex".to_string(), "it".to_string()]);
    let toks = lexer.tokenize().expect("lexing failed");
    assert_eq!(toks.len(), 1);
    assert_eq!(toks[0].kind, TokenKind::Exit);
}
