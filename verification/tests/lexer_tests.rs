use tiny_basic_compiler::ast::Variable;
use tiny_basic_compiler::lexer::LexError;
use tiny_basic_compiler::lexer::LexerBuilder;
use tiny_basic_compiler::lexer::LexerModule;
use tiny_basic_compiler::lexer::TokenIterator;
use tiny_basic_compiler::lexer_modules::create_lexer;
use tiny_basic_compiler::lexer_modules::BasicLexerModule;
use tiny_basic_compiler::lexer_modules::KeywordLexerModule;
use tiny_basic_compiler::lexer_modules::NumberLexerModule;
use tiny_basic_compiler::lexer_modules::SymbolLexerModule;
use tiny_basic_compiler::lexer_modules::VariableLexerModule;
use tiny_basic_compiler::token::Keyword;
use tiny_basic_compiler::token::Symbol;
use tiny_basic_compiler::token::Token;

fn collect_tokens<M: LexerModule<Language = Token>>(
    stream: &mut TokenIterator<M>,
) -> Result<Vec<Token>, LexError> {
    let mut tokens = Vec::new();
    while let Some(item) = stream.next() {
        match item {
            Ok(token) => tokens.push(token),
            Err(e) => return Err(e),
        }
    }
    Ok(tokens)
}

#[test]
fn test_can_build_lexer() {
    let lexer = LexerBuilder::<BasicLexerModule>::new().build();
    assert_eq!(lexer.module_count(), 0);
}

#[test]
fn test_lexer_with_test_lexer() {
    // A pipeline holding one single recognizer yields exactly that
    // recognizer's token for the one-byte input.
    let lexer = LexerBuilder::new().add_module(VariableLexerModule()).build();
    let mut stream = lexer.parse_stream(b"A");
    let ret_tokens = collect_tokens(&mut stream);
    assert!(ret_tokens.is_ok());
    let ret_tokens = ret_tokens.unwrap();
    assert_eq!(ret_tokens.len(), 1);
    assert_eq!(ret_tokens[0], Token::Variable(Variable::try_from_u8(b'A').unwrap()));
}

#[test]
fn lexer_program_tests_test_lexer_on_hello_world() {
    let input = b"10 CLEAR\n20 PRINT \"What is your name?\"\n30 INPUT A\n40 PRINT \"Hello, \", A";
    let variable = Variable::try_from_u8(b'A').unwrap();
    let expected_output: Vec<Token> = vec![
        Token::Number(10),
        Token::Keyword(Keyword::Clear),
        Token::NewLine,
        Token::Number(20),
        Token::Keyword(Keyword::Print),
        Token::String(b"What is your name?".to_vec()),
        Token::NewLine,
        Token::Number(30),
        Token::Keyword(Keyword::Input),
        Token::Variable(variable),
        Token::NewLine,
        Token::Number(40),
        Token::Keyword(Keyword::Print),
        Token::String(b"Hello, ".to_vec()),
        Token::Symbol(Symbol::Comma),
        Token::Variable(variable),
    ];

    let lexer = create_lexer();
    let mut stream = lexer.parse_stream(input);
    let tokens = collect_tokens(&mut stream).unwrap();
    assert_eq!(tokens, expected_output);
}

#[test]
fn test_pipeline_ordering_decides_token() {
    // With the keyword recognizer before the variable recognizer, CLEAR is
    // one keyword token; with the order reversed, the same input is read
    // as one-letter variables instead.
    let keyword_first = LexerBuilder::new()
        .add_module(BasicLexerModule::Keyword(KeywordLexerModule()))
        .add_module(BasicLexerModule::Variable(VariableLexerModule()))
        .build();
    let mut stream = keyword_first.parse_stream(b"CLEAR");
    let tokens = collect_tokens(&mut stream).unwrap();
    assert_eq!(tokens, vec![Token::Keyword(Keyword::Clear)]);

    let variable_first = LexerBuilder::new()
        .add_module(BasicLexerModule::Variable(VariableLexerModule()))
        .add_module(BasicLexerModule::Keyword(KeywordLexerModule()))
        .build();
    let mut stream = variable_first.parse_stream(b"CLEAR");
    let tokens = collect_tokens(&mut stream).unwrap();
    assert_eq!(tokens.len(), 5);
    assert_eq!(tokens[0], Token::Variable(Variable::try_from_u8(b'C').unwrap()));
}

#[test]
fn test_ignored_characters_are_skipped() {
    // Whitespace between two recognized tokens yields exactly the two
    // tokens, with no synthetic whitespace token in between.
    let lexer = create_lexer();
    let mut stream = lexer.parse_stream(b"10  CLEAR");
    let tokens = collect_tokens(&mut stream).unwrap();
    assert_eq!(tokens, vec![Token::Number(10), Token::Keyword(Keyword::Clear)]);

    // The same holds when no recognizer in the pipeline claims whitespace
    // at all: the pipeline discards the unclaimed bytes one at a time.
    let plain = LexerBuilder::new()
        .add_module(BasicLexerModule::Number(NumberLexerModule()))
        .add_module(BasicLexerModule::Symbol(SymbolLexerModule()))
        .build();
    let mut stream = plain.parse_stream(b"1  ,");
    let tokens = collect_tokens(&mut stream).unwrap();
    assert_eq!(tokens, vec![Token::Number(1), Token::Symbol(Symbol::Comma)]);
}

#[test]
fn test_unterminated_literal_halts_stream() {
    // An opened but never closed quote yields one diagnostic, and the
    // stream then ends for good.
    let lexer = create_lexer();
    let mut stream = lexer.parse_stream(b"\"abc");
    assert_eq!(stream.next(), Some(Err(LexError::UnterminatedString)));
    assert_eq!(stream.next(), None);
    assert_eq!(stream.next(), None);
}

#[test]
fn test_lexer_is_reusable_across_parses() {
    let lexer = create_lexer();
    for _ in 0..2 {
        let mut stream = lexer.parse_stream(b"RUN\n");
        let tokens = collect_tokens(&mut stream).unwrap();
        assert_eq!(tokens, vec![Token::Keyword(Keyword::Run), Token::NewLine]);
    }
}

#[test]
fn test_lexer_result_predicates() {
    let lexer_module = SymbolLexerModule();
    let success = lexer_module.parse_stream(b",");
    assert!(success.is_success());
    assert!(!success.is_ignored());
    assert!(!success.is_failure());
    let ignored = lexer_module.parse_stream(b"a");
    assert!(ignored.is_ignored());
    assert!(!ignored.is_success());
    assert!(!ignored.is_failure());
}

#[test]
fn test_lexer_failure_unwrap_err() {
    let lexer_module = tiny_basic_compiler::lexer_modules::StringLexerModule();
    let failure = lexer_module.parse_stream(b"\"open");
    assert!(failure.is_failure());
    assert_eq!(failure.unwrap_err(), LexError::UnterminatedString);
}
