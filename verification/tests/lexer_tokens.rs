//! The lexer on concrete sources.
use ulang::lexer::Lexer;
use ulang::token::Span;
use ulang::token::Token;

fn lex_all(source: &str) -> Vec<(Token, Span)> {
    let mut lexer = Lexer::new(source);
    let mut tokens = Vec::new();
    loop {
        let (token, span) = lexer.next_token().unwrap();
        let is_eof = matches!(token, Token::Eof);
        tokens.push((token, span));
        if is_eof {
            break;
        }
    }
    tokens
}

fn assert_float(token: &Token, expected: f64) {
    match token {
        Token::FloatLit(digits) => assert_eq!(digits.parse::<f64>().unwrap(), expected),
        _ => panic!("not a float literal"),
    }
}

fn assert_suffixed_float(token: &Token, expected: f64, suffix: Token) {
    match token {
        Token::FloatSuffixLit(digits, s) => {
            assert_eq!(digits.parse::<f64>().unwrap(), expected);
            assert_eq!(**s, suffix);
        }
        _ => panic!("not a float literal with a suffix"),
    }
}

#[test]
fn test_empty_source() {
    let tokens = lex_all("");
    assert_eq!(tokens.len(), 1);
    assert_eq!(tokens[0].0, Token::Eof);
}

#[test]
fn test_integer() {
    let tokens = lex_all("42");
    assert_eq!(tokens[0].0, Token::IntLit(42));
    assert!(matches!(tokens[1].0, Token::Eof));
}

#[test]
fn test_large_integer() {
    let tokens = lex_all("123456789");
    assert_eq!(tokens[0].0, Token::IntLit(123456789));
}

#[test]
fn test_identifiers() {
    let tokens = lex_all("foo _bar x42");
    assert_eq!(tokens[0].0, Token::Ident("foo".into()));
    assert_eq!(tokens[1].0, Token::Ident("_bar".into()));
    assert_eq!(tokens[2].0, Token::Ident("x42".into()));
    assert!(matches!(tokens[3].0, Token::Eof));
}

#[test]
fn test_keywords() {
    let tokens = lex_all("fn let mut const mod pub in");
    assert_eq!(tokens[0].0, Token::Fn);
    assert_eq!(tokens[1].0, Token::Let);
    assert_eq!(tokens[2].0, Token::Mut);
    assert_eq!(tokens[3].0, Token::Const);
    assert_eq!(tokens[4].0, Token::Mod);
    assert_eq!(tokens[5].0, Token::Pub);
    assert_eq!(tokens[6].0, Token::In);
    assert!(matches!(tokens[7].0, Token::Eof));
}

#[test]
fn test_operators_and_punctuation() {
    let tokens = lex_all("+ - * / = ; ( ) { }");
    assert_eq!(tokens[0].0, Token::Plus);
    assert_eq!(tokens[1].0, Token::Minus);
    assert_eq!(tokens[2].0, Token::Star);
    assert_eq!(tokens[3].0, Token::Slash);
    assert_eq!(tokens[4].0, Token::Eq);
    assert_eq!(tokens[5].0, Token::Semicolon);
    assert_eq!(tokens[6].0, Token::LParen);
    assert_eq!(tokens[7].0, Token::RParen);
    assert_eq!(tokens[8].0, Token::LBrace);
    assert_eq!(tokens[9].0, Token::RBrace);
    assert!(matches!(tokens[10].0, Token::Eof));
}

#[test]
fn test_whitespace() {
    let tokens = lex_all("  let  x\t=\n42");
    assert_eq!(tokens[0].0, Token::Let);
    assert_eq!(tokens[1].0, Token::Ident("x".into()));
    assert_eq!(tokens[2].0, Token::Eq);
    assert_eq!(tokens[3].0, Token::IntLit(42));
    assert!(matches!(tokens[4].0, Token::Eof));
}

#[test]
fn test_comment() {
    let tokens = lex_all("// hello\nlet");
    assert_eq!(tokens[0].0, Token::Let);
    assert!(matches!(tokens[1].0, Token::Eof));
}

#[test]
fn test_comment_eof() {
    let tokens = lex_all("// hello");
    assert!(matches!(tokens[0].0, Token::Eof));
}

#[test]
fn test_mixed() {
    let tokens = lex_all("fn main() { print(2+3); }");
    assert_eq!(tokens[0].0, Token::Fn);
    assert_eq!(tokens[1].0, Token::Ident("main".into()));
    assert_eq!(tokens[2].0, Token::LParen);
    assert_eq!(tokens[3].0, Token::RParen);
    assert_eq!(tokens[4].0, Token::LBrace);
    assert_eq!(tokens[5].0, Token::Ident("print".into()));
    assert_eq!(tokens[6].0, Token::LParen);
    assert_eq!(tokens[7].0, Token::IntLit(2));
    assert_eq!(tokens[8].0, Token::Plus);
    assert_eq!(tokens[9].0, Token::IntLit(3));
    assert_eq!(tokens[10].0, Token::RParen);
    assert_eq!(tokens[11].0, Token::Semicolon);
    assert_eq!(tokens[12].0, Token::RBrace);
    assert!(matches!(tokens[13].0, Token::Eof));
}

#[test]
fn test_invalid_char() {
    let mut lexer = Lexer::new("@");
    let result = lexer.next_token();
    assert!(result.is_err());
    assert_eq!(result.unwrap_err(), "unexpected character '@'");
}

#[test]
fn test_float_literal() {
    let tokens = lex_all("3.14");
    assert_float(&tokens[0].0, 3.14);
    assert!(matches!(tokens[1].0, Token::Eof));
}

#[test]
fn test_float_leading_zero() {
    let tokens = lex_all("0.5");
    assert_float(&tokens[0].0, 0.5);
    assert!(matches!(tokens[1].0, Token::Eof));
}

#[test]
fn test_colon_token() {
    let tokens = lex_all(":");
    assert_eq!(tokens[0].0, Token::Colon);
    assert!(matches!(tokens[1].0, Token::Eof));
}

#[test]
fn test_ampersand_token() {
    let tokens = lex_all("&");
    assert_eq!(tokens[0].0, Token::Ampersand);
    assert!(matches!(tokens[1].0, Token::Eof));
}

#[test]
fn test_as_keyword() {
    let tokens = lex_all("as");
    assert_eq!(tokens[0].0, Token::As);
    assert!(matches!(tokens[1].0, Token::Eof));
}

#[test]
fn test_bool_keyword() {
    let tokens = lex_all("bool");
    assert_eq!(tokens[0].0, Token::Bool);
    assert!(matches!(tokens[1].0, Token::Eof));
}

#[test]
fn test_true_false_literals() {
    let tokens = lex_all("true false");
    assert_eq!(tokens[0].0, Token::True);
    assert_eq!(tokens[1].0, Token::False);
    assert!(matches!(tokens[2].0, Token::Eof));
}

#[test]
fn test_type_name_tokens() {
    let types = [
        ("i8", Token::I8),
        ("i16", Token::I16),
        ("i32", Token::I32),
        ("i64", Token::I64),
        ("u8", Token::U8),
        ("u16", Token::U16),
        ("u32", Token::U32),
        ("u64", Token::U64),
        ("usize", Token::Usize),
        ("isize", Token::Isize),
        ("f32", Token::F32),
        ("f64", Token::F64),
    ];
    for (s, expected) in &types {
        let tokens = lex_all(s);
        assert_eq!(tokens[0].0, *expected, "type token '{}' mismatch", s);
        assert!(matches!(tokens[1].0, Token::Eof));
    }
}

#[test]
fn test_typed_let() {
    let tokens = lex_all("let x: i32 = 42");
    assert_eq!(tokens[0].0, Token::Let);
    assert_eq!(tokens[1].0, Token::Ident("x".into()));
    assert_eq!(tokens[2].0, Token::Colon);
    assert_eq!(tokens[3].0, Token::I32);
    assert_eq!(tokens[4].0, Token::Eq);
    assert_eq!(tokens[5].0, Token::IntLit(42));
    assert!(matches!(tokens[6].0, Token::Eof));
}

#[test]
fn test_as_cast_syntax() {
    let tokens = lex_all("x as f64");
    assert_eq!(tokens[0].0, Token::Ident("x".into()));
    assert_eq!(tokens[1].0, Token::As);
    assert_eq!(tokens[2].0, Token::F64);
    assert!(matches!(tokens[3].0, Token::Eof));
}

#[test]
fn test_int_suffix_lit() {
    let tokens = lex_all("42i32");
    assert_eq!(tokens[0].0, Token::IntSuffixLit(42, Box::new(Token::I32)));
    assert!(matches!(tokens[1].0, Token::Eof));
}

#[test]
fn test_u8_suffix_lit() {
    let tokens = lex_all("255u8");
    assert_eq!(tokens[0].0, Token::IntSuffixLit(255, Box::new(Token::U8)));
    assert!(matches!(tokens[1].0, Token::Eof));
}

#[test]
fn test_i64_suffix_lit() {
    let tokens = lex_all("1000i64");
    assert_eq!(tokens[0].0, Token::IntSuffixLit(1000, Box::new(Token::I64)));
    assert!(matches!(tokens[1].0, Token::Eof));
}

#[test]
fn test_float_suffix_lit() {
    let tokens = lex_all("3.14f64");
    assert_suffixed_float(&tokens[0].0, 3.14, Token::F64);
    assert!(matches!(tokens[1].0, Token::Eof));
}

#[test]
fn test_f32_suffix_lit() {
    let tokens = lex_all("1.5f32");
    assert_suffixed_float(&tokens[0].0, 1.5, Token::F32);
    assert!(matches!(tokens[1].0, Token::Eof));
}

#[test]
fn test_if_keyword() {
    let tokens = lex_all("if");
    assert_eq!(tokens[0].0, Token::If);
    assert!(matches!(tokens[1].0, Token::Eof));
}

#[test]
fn test_else_keyword() {
    let tokens = lex_all("else");
    assert_eq!(tokens[0].0, Token::Else);
    assert!(matches!(tokens[1].0, Token::Eof));
}

#[test]
fn test_loop_keyword() {
    let tokens = lex_all("loop");
    assert_eq!(tokens[0].0, Token::Loop);
    assert!(matches!(tokens[1].0, Token::Eof));
}

#[test]
fn test_while_keyword() {
    let tokens = lex_all("while");
    assert_eq!(tokens[0].0, Token::While);
    assert!(matches!(tokens[1].0, Token::Eof));
}

#[test]
fn test_return_keyword() {
    let tokens = lex_all("return");
    assert_eq!(tokens[0].0, Token::Return);
    assert!(matches!(tokens[1].0, Token::Eof));
}

#[test]
fn test_eqeq_operator() {
    let tokens = lex_all("==");
    assert_eq!(tokens[0].0, Token::EqEq);
    assert!(matches!(tokens[1].0, Token::Eof));
}

#[test]
fn test_bangeq_operator() {
    let tokens = lex_all("!=");
    assert_eq!(tokens[0].0, Token::BangEq);
    assert!(matches!(tokens[1].0, Token::Eof));
}

#[test]
fn test_lt_operator() {
    let tokens = lex_all("<");
    assert_eq!(tokens[0].0, Token::Lt);
    assert!(matches!(tokens[1].0, Token::Eof));
}

#[test]
fn test_gt_operator() {
    let tokens = lex_all(">");
    assert_eq!(tokens[0].0, Token::Gt);
    assert!(matches!(tokens[1].0, Token::Eof));
}

#[test]
fn test_le_operator() {
    let tokens = lex_all("<=");
    assert_eq!(tokens[0].0, Token::Le);
    assert!(matches!(tokens[1].0, Token::Eof));
}

#[test]
fn test_ge_operator() {
    let tokens = lex_all(">=");
    assert_eq!(tokens[0].0, Token::Ge);
    assert!(matches!(tokens[1].0, Token::Eof));
}

#[test]
fn test_bang_equals_does_not_break_bang() {
    let tokens = lex_all("!x");
    assert_eq!(tokens[0].0, Token::Bang);
    assert_eq!(tokens[1].0, Token::Ident("x".into()));
    assert!(matches!(tokens[2].0, Token::Eof));
}

#[test]
fn test_equals_does_not_break_eqeq() {
    let tokens = lex_all("=x");
    assert_eq!(tokens[0].0, Token::Eq);
    assert_eq!(tokens[1].0, Token::Ident("x".into()));
    assert!(matches!(tokens[2].0, Token::Eof));
}

#[test]
fn test_control_flow_lexing() {
    let tokens = lex_all("if cond { 1 } else { 2 }");
    assert_eq!(tokens[0].0, Token::If);
    assert_eq!(tokens[1].0, Token::Ident("cond".into()));
    assert_eq!(tokens[2].0, Token::LBrace);
    assert_eq!(tokens[3].0, Token::IntLit(1));
    assert_eq!(tokens[4].0, Token::RBrace);
    assert_eq!(tokens[5].0, Token::Else);
    assert_eq!(tokens[6].0, Token::LBrace);
    assert_eq!(tokens[7].0, Token::IntLit(2));
    assert_eq!(tokens[8].0, Token::RBrace);
    assert!(matches!(tokens[9].0, Token::Eof));
}

#[test]
fn test_comparison_in_expression() {
    let tokens = lex_all("x == y");
    assert_eq!(tokens[0].0, Token::Ident("x".into()));
    assert_eq!(tokens[1].0, Token::EqEq);
    assert_eq!(tokens[2].0, Token::Ident("y".into()));
    assert!(matches!(tokens[3].0, Token::Eof));
}

#[test]
fn test_suffix_in_expression() {
    let tokens = lex_all("let x = 42i32;");
    assert_eq!(tokens[0].0, Token::Let);
    assert_eq!(tokens[1].0, Token::Ident("x".into()));
    assert_eq!(tokens[2].0, Token::Eq);
    assert_eq!(tokens[3].0, Token::IntSuffixLit(42, Box::new(Token::I32)));
    assert_eq!(tokens[4].0, Token::Semicolon);
    assert!(matches!(tokens[5].0, Token::Eof));
}

#[test]
fn test_non_type_suffix_not_consumed() {
    // 42foo should lex as IntLit(42) then Ident("foo")
    let tokens = lex_all("42foo");
    assert_eq!(tokens[0].0, Token::IntLit(42));
    assert_eq!(tokens[1].0, Token::Ident("foo".into()));
    assert!(matches!(tokens[2].0, Token::Eof));
}

#[test]
fn test_spans_are_contiguous() {
    let src = "fn foo() {}";
    let mut lexer = Lexer::new(src);
    let mut prev_hi = 0;
    loop {
        let (token, span) = lexer.next_token().unwrap();
        if matches!(token, Token::Eof) {
            break;
        }
        // Each token's span should start at or after the previous end
        assert!(
            span.lo >= prev_hi,
            "span {:?} starts before previous end {}",
            span,
            prev_hi
        );
        prev_hi = span.hi;
    }
}

#[test]
fn test_logical_operators() {
    let tokens = lex_all("&& || & |");
    assert_eq!(tokens[0].0, Token::AndAnd);
    assert_eq!(tokens[1].0, Token::OrOr);
    assert_eq!(tokens[2].0, Token::Ampersand);
    assert_eq!(tokens[3].0, Token::Pipe);
    assert!(matches!(tokens[4].0, Token::Eof));
}
