use tiny_basic_compiler::ast::Variable;
use tiny_basic_compiler::ast::VariableFromU8Error;
use tiny_basic_compiler::token::Keyword;
use tiny_basic_compiler::token::Symbol;
use tiny_basic_compiler::token::SymbolFromStrError;
use tiny_basic_compiler::token::Token;

#[test]
fn test_symbol_try_from_byte() {
    assert_eq!(Symbol::try_from_byte(b'<'), Ok(Symbol::LessThanSign));
    assert_eq!(Symbol::try_from_byte(b'>'), Ok(Symbol::GreaterThanSign));
    assert_eq!(Symbol::try_from_byte(b'='), Ok(Symbol::EqualsSign));
    assert_eq!(Symbol::try_from_byte(b'+'), Ok(Symbol::Plus));
    assert_eq!(Symbol::try_from_byte(b'-'), Ok(Symbol::Minus));
    assert_eq!(Symbol::try_from_byte(b'*'), Ok(Symbol::Times));
    assert_eq!(Symbol::try_from_byte(b'/'), Ok(Symbol::Divide));
    assert_eq!(Symbol::try_from_byte(b','), Ok(Symbol::Comma));
    assert_eq!(
        Symbol::try_from_byte(b'!'),
        Err(SymbolFromStrError::UnrecognizedSymbol)
    );
}

#[test]
fn test_keyword_from_bytes() {
    assert_eq!(Keyword::from_bytes(b"print"), Some(Keyword::Print));
    assert_eq!(Keyword::from_bytes(b"IF"), Some(Keyword::If));
    assert_eq!(Keyword::from_bytes(b"Then"), Some(Keyword::Then));
    assert_eq!(Keyword::from_bytes(b"gOtO"), Some(Keyword::Goto));
    assert_eq!(Keyword::from_bytes(b"input"), Some(Keyword::Input));
    assert_eq!(Keyword::from_bytes(b"LET"), Some(Keyword::Let));
    assert_eq!(Keyword::from_bytes(b"gosub"), Some(Keyword::GoSub));
    assert_eq!(Keyword::from_bytes(b"return"), Some(Keyword::Return));
    assert_eq!(Keyword::from_bytes(b"clear"), Some(Keyword::Clear));
    assert_eq!(Keyword::from_bytes(b"list"), Some(Keyword::List));
    assert_eq!(Keyword::from_bytes(b"run"), Some(Keyword::Run));
    assert_eq!(Keyword::from_bytes(b"end"), Some(Keyword::End));
    assert_eq!(Keyword::from_bytes(b"ends"), None);
    assert_eq!(Keyword::from_bytes(b""), None);
}

#[test]
fn test_token_is_keyword() {
    assert!(Token::Keyword(Keyword::Print).is_keyword());
    assert!(!Token::Number(3).is_keyword());
    assert!(!Token::NewLine.is_keyword());
}

#[test]
fn test_token_equality_compares_string_bytes() {
    assert_eq!(Token::String(b"ab".to_vec()), Token::String(b"ab".to_vec()));
    assert_ne!(Token::String(b"ab".to_vec()), Token::String(b"ac".to_vec()));
    assert_ne!(Token::String(b"ab".to_vec()), Token::NewLine);
}

#[test]
fn test_variable_rejects_non_letters() {
    assert_eq!(
        Variable::try_from_u8(b'0'),
        Err(VariableFromU8Error::CharacterOutOfRange)
    );
    assert_eq!(
        Variable::try_from_u8(b'['),
        Err(VariableFromU8Error::CharacterOutOfRange)
    );
}
