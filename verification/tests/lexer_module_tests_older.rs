use tiny_basic_compiler::lexer::LexerBuilder;
use tiny_basic_compiler::lexer::LexerModule;
use tiny_basic_compiler::lexer_modules::KeywordLexerModule;
use tiny_basic_compiler::lexer_modules::SymbolLexerModule;
use tiny_basic_compiler::token::Keyword;
use tiny_basic_compiler::token::Symbol;
use tiny_basic_compiler::token::Token;

fn trim_front(bytes: &[u8]) -> &[u8] {
    let mut start = 0usize;
    while start < bytes.len() && bytes[start].is_ascii_whitespace() {
        start += 1;
    }
    &bytes[start..]
}

#[test]
fn test_valid_keyword_lexer_module() {
    let s = b"print \"Hello World!\"";
    let lexer_module = KeywordLexerModule();
    let result = lexer_module.parse_stream(s);
    assert!(result.is_success());
}

#[test]
fn test_invalid_keyword_lexer_module() {
    let s = b"This is not a keyword";
    let lexer_module = KeywordLexerModule();
    let result = lexer_module.parse_stream(s);
    assert!(result.is_ignored());
}

#[test]
fn test_empty_string_keyword_lexer_module() {
    let s = b"";
    let lexer_module = KeywordLexerModule();
    let result = lexer_module.parse_stream(s);
    assert!(result.is_ignored());
}

#[test]
fn test_valid_keyword_lexer_module_gets_correct_token() {
    let keywords = [
        Keyword::Print,
        Keyword::If,
        Keyword::Then,
        Keyword::Goto,
        Keyword::Input,
        Keyword::Let,
        Keyword::GoSub,
        Keyword::Return,
        Keyword::Clear,
        Keyword::List,
        Keyword::Run,
        Keyword::End,
    ];

    let s = b"print if then goto input let gosub return clear list run end".to_vec();
    let mut remainder: Vec<u8> = s;
    let lexer_module = KeywordLexerModule();
    for keyword in keywords {
        let result = lexer_module.parse_stream(&remainder);
        let result = result.unwrap();
        match result.token {
            Token::Keyword(kw) => assert_eq!(kw, keyword),
            _ => assert!(false),
        }
        remainder = trim_front(&result.remainder).to_vec();
    }

    assert!(remainder.is_empty());
}

#[test]
fn test_symbol_list() {
    let input_symbols = b"<>=+-*/,";
    let expected_token = vec![
        Token::Symbol(Symbol::LessThanSign),
        Token::Symbol(Symbol::GreaterThanSign),
        Token::Symbol(Symbol::EqualsSign),
        Token::Symbol(Symbol::Plus),
        Token::Symbol(Symbol::Minus),
        Token::Symbol(Symbol::Times),
        Token::Symbol(Symbol::Divide),
        Token::Symbol(Symbol::Comma),
    ];

    let lexer_module = SymbolLexerModule();
    let lexer = LexerBuilder::new().add_module(lexer_module).build();
    let mut stream = lexer.parse_stream(input_symbols);

    for expected_token in expected_token.into_iter() {
        let token = stream.next().unwrap();
        assert_eq!(token.unwrap(), expected_token);
    }
}
