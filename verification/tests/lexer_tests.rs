use mips_compiler::lexer::lex;
use mips_compiler::token::{Token, TokenType};

#[test]
fn tokenizer_simple() {
    let s = "3.5*abc".to_string();
    let result = lex(&s);
    assert_eq!(
        result,
        vec![
            Token::new(TokenType::Number, "3.5"),
            Token::new(TokenType::Single, "*"),
            Token::new(TokenType::Word, "abc")
        ]
    );
}

#[test]
fn ignores_whitespace() {
    let s1 = String::from("a+b*(5-7)");
    let s2 = String::from(" a + b         \n \t    *           (5 -7) ");
    assert_eq!(lex(&s1), lex(&s2));
}

#[test]
fn whitespace_between_tokens_is_dropped() {
    let result = lex(" a + b  \n\t * (5 -7) ");
    assert_eq!(
        result,
        vec![
            Token::new(TokenType::Word, "a"),
            Token::new(TokenType::Single, "+"),
            Token::new(TokenType::Word, "b"),
            Token::new(TokenType::Single, "*"),
            Token::new(TokenType::Single, "("),
            Token::new(TokenType::Number, "5"),
            Token::new(TokenType::Single, "-"),
            Token::new(TokenType::Number, "7"),
            Token::new(TokenType::Single, ")"),
        ]
    );
}

#[test]
fn empty_text_has_no_tokens() {
    assert!(lex("").is_empty());
    assert!(lex(" \n\t ").is_empty());
}

#[test]
fn dot_without_digits_is_a_token_of_its_own() {
    assert_eq!(
        lex("3.x"),
        vec![
            Token::new(TokenType::Number, "3"),
            Token::new(TokenType::Single, "."),
            Token::new(TokenType::Word, "x"),
        ]
    );
    assert_eq!(
        lex("12."),
        vec![Token::new(TokenType::Number, "12"), Token::new(TokenType::Single, "."),]
    );
}

#[test]
fn number_takes_one_fraction_only() {
    assert_eq!(
        lex("1.25.5"),
        vec![
            Token::new(TokenType::Number, "1.25"),
            Token::new(TokenType::Single, "."),
            Token::new(TokenType::Number, "5"),
        ]
    );
}

#[test]
fn word_may_hold_digits_but_not_begin_with_one() {
    assert_eq!(lex("ab12"), vec![Token::new(TokenType::Word, "ab12")]);
    assert_eq!(
        lex("12ab"),
        vec![Token::new(TokenType::Number, "12"), Token::new(TokenType::Word, "ab")]
    );
}

#[test]
fn characters_outside_ascii_are_single_tokens() {
    assert_eq!(
        lex("a\u{e9}b"),
        vec![
            Token::new(TokenType::Word, "a"),
            Token::new(TokenType::Single, "\u{e9}"),
            Token::new(TokenType::Word, "b"),
        ]
    );
    assert_eq!(
        lex("a\u{a0}b"),
        vec![Token::new(TokenType::Word, "a"), Token::new(TokenType::Word, "b"),]
    );
}

#[test]
fn white_space_at_a_token_boundary_changes_nothing() {
    let plain = "ab+12.5;c";
    for spaced in ["ab +12.5;c", "ab+ 12.5;c", " ab+12.5;c", "ab+12.5 ;c", "ab+12.5;c\n", "ab+12.5;\tc"] {
        assert_eq!(lex(spaced), lex(plain));
    }
    assert_ne!(lex("a b+12.5;c"), lex(plain));
    assert_ne!(lex("ab+12 .5;c"), lex(plain));
}
