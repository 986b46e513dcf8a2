use functional::interpreter::tokenizer::{tokenize, Token, TokenizeError};

#[test]
fn it_works() {
    assert_eq!(
        tokenize("a: asd()").unwrap(),
        vec![
            Token::Variable('a'),
            Token::Colon,
            Token::Constant("asd".to_string()),
            Token::OpenPar,
            Token::ClosePar
        ]
    );
}

#[test]
fn unknown_characters_are_refused() {
    assert_eq!(tokenize("a + b"), Err(TokenizeError::UnknownCharacter('+')));
    assert_eq!(tokenize("x: ½"), Err(TokenizeError::UnknownCharacter('½')));
}

#[test]
fn words_and_whitespace() {
    // a one-letter word is a variable, a longer word a constant
    assert_eq!(
        tokenize(" a\tCD xy\n").unwrap(),
        vec![
            Token::Variable('a'),
            Token::Constant("CD".to_string()),
            Token::Constant("xy".to_string()),
        ]
    );
    assert_eq!(tokenize("").unwrap(), vec![]);
    // digits are not letters
    assert_eq!(tokenize("12"), Err(TokenizeError::UnknownCharacter('1')));
}
