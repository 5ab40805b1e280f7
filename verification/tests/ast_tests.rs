use tiny_basic_compiler::ast::Line;
use tiny_basic_compiler::ast::ParseError;
use tiny_basic_compiler::ast::Program;
use tiny_basic_compiler::ast::RelOpSymbol;
use tiny_basic_compiler::ast::Statement;
use tiny_basic_compiler::grammar::GrammarBuilder;
use tiny_basic_compiler::grammar::GrammarNodeData;
use tiny_basic_compiler::grammar::GrammarTree;
use tiny_basic_compiler::grammar::ParseGrammarTree;
use tiny_basic_compiler::parser::Parser;
use tiny_basic_compiler::rule::Rule;
use tiny_basic_compiler::token::Keyword;
use tiny_basic_compiler::token::Symbol;
use tiny_basic_compiler::token::Token;
use tiny_basic_compiler::token::TokenMatcher;

#[test]
fn test_relopsymbol() {
    // Build the relational-operator fragment of the language: one
    // nonterminating symbol with one rule per two-symbol operator.
    let mut grammar_builder = GrammarBuilder::<TokenMatcher>::new();

    let rel_op_symbol = grammar_builder.id();

    // Matches <=
    let leq_rule = Rule::new(rel_op_symbol)
        .add_terminating_symbol(TokenMatcher::TokenEquals(Token::Symbol(Symbol::LessThanSign)))
        .add_terminating_symbol(TokenMatcher::TokenEquals(Token::Symbol(Symbol::EqualsSign)));

    // Matches >=
    let geq_rule = Rule::new(rel_op_symbol)
        .add_terminating_symbol(TokenMatcher::TokenEquals(Token::Symbol(Symbol::GreaterThanSign)))
        .add_terminating_symbol(TokenMatcher::TokenEquals(Token::Symbol(Symbol::EqualsSign)));

    let grammar = grammar_builder.add_rule(leq_rule).add_rule(geq_rule).build();
    assert!(grammar.is_some());

    // Parsing <= reduces to one node that reads back as the operator.
    let tree = grammar
        .unwrap()
        .parse(vec![
            Token::Symbol(Symbol::LessThanSign),
            Token::Symbol(Symbol::EqualsSign),
        ])
        .unwrap();
    assert_eq!(RelOpSymbol::parse(tree), Ok(RelOpSymbol::LessThanOrEqual));
}

#[test]
fn test_relop_from_symbols() {
    assert_eq!(
        RelOpSymbol::try_from_symbols(&[Symbol::LessThanSign]),
        Ok(RelOpSymbol::LessThan)
    );
    assert_eq!(
        RelOpSymbol::try_from_symbols(&[Symbol::LessThanSign, Symbol::EqualsSign]),
        Ok(RelOpSymbol::LessThanOrEqual)
    );
    assert_eq!(
        RelOpSymbol::try_from_symbols(&[Symbol::EqualsSign]),
        Ok(RelOpSymbol::Equal)
    );
    assert_eq!(
        RelOpSymbol::try_from_symbols(&[Symbol::GreaterThanSign]),
        Ok(RelOpSymbol::GreaterThan)
    );
    assert_eq!(
        RelOpSymbol::try_from_symbols(&[Symbol::GreaterThanSign, Symbol::EqualsSign]),
        Ok(RelOpSymbol::GreaterThanOrEqual)
    );
    assert_eq!(
        RelOpSymbol::try_from_symbols(&[Symbol::Plus]),
        Err(ParseError::UnrecognizedRelOp)
    );
    assert_eq!(
        RelOpSymbol::try_from_symbols(&[]),
        Err(ParseError::UnrecognizedRelOp)
    );
}

#[test]
fn test_relop_from_tokens() {
    assert_eq!(
        RelOpSymbol::try_from_tokens(&[Token::Symbol(Symbol::GreaterThanSign)]),
        Ok(RelOpSymbol::GreaterThan)
    );
    assert_eq!(
        RelOpSymbol::try_from_tokens(&[Token::Symbol(Symbol::LessThanSign), Token::NewLine]),
        Err(ParseError::ExpectedSymbolToken)
    );
}

#[test]
fn test_relop_parse_rejects_leaf() {
    let tree = GrammarTree::Leaf(Token::NewLine);
    assert_eq!(RelOpSymbol::parse(tree), Err(ParseError::ExpectedNode));
}

#[test]
fn test_relop_parse_rejects_interior_child() {
    let mut grammar_builder = GrammarBuilder::<TokenMatcher>::new();
    let s = grammar_builder.id();
    let inner: GrammarTree<Token> = GrammarTree::Node(GrammarNodeData::new(s, Vec::new()));
    let tree = GrammarTree::Node(GrammarNodeData::new(s, vec![Box::new(inner)]));
    assert_eq!(RelOpSymbol::parse(tree), Err(ParseError::ExpectedLeaf));
}

#[test]
fn test_program_collects_lines() {
    let mut program = Program::new();
    let numbered = Line::new(Some(10), Statement::Clear);
    assert_eq!(numbered.line_number(), Some(10));
    assert!(program.add_line(numbered).is_ok());
    let unnumbered = Line::new(None, Statement::End);
    assert_eq!(unnumbered.line_number(), None);
    assert!(program.add_line(unnumbered).is_ok());
}

#[test]
fn test_parser_parses_simple_statements() {
    let tokens = vec![
        Token::Number(10),
        Token::Keyword(Keyword::Clear),
        Token::Keyword(Keyword::Return),
        Token::Number(30),
        Token::Keyword(Keyword::End),
    ];
    assert!(Parser::parse(tokens).is_ok());
}

#[test]
fn test_parser_rejects_non_keyword_statement() {
    let tokens = vec![Token::Number(10), Token::Symbol(Symbol::Plus)];
    match Parser::parse(tokens) {
        Err(e) => assert_eq!(e, ParseError::ExpectedKeyword),
        Ok(_) => panic!("Expected the parse to fail!"),
    }
}

#[test]
fn test_parser_rejects_dangling_line_number() {
    let tokens = vec![Token::Number(10)];
    match Parser::parse(tokens) {
        Err(e) => assert_eq!(e, ParseError::UnexpectedEndOfInput),
        Ok(_) => panic!("Expected the parse to fail!"),
    }
}

#[test]
fn test_parser_accepts_empty_stream() {
    assert!(Parser::parse(Vec::new()).is_ok());
}
