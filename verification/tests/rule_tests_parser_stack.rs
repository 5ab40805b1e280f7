use tiny_basic_compiler::grammar::GrammarBuilder;
use tiny_basic_compiler::grammar::GrammarNodeData;
use tiny_basic_compiler::grammar::GrammarTree;
use tiny_basic_compiler::rule::Rule;
use tiny_basic_compiler::token::Token;
use tiny_basic_compiler::token::TokenMatcher;

#[test]
fn test_create_symbol() {
    let mut grammar = GrammarBuilder::<TokenMatcher>::new();
    let s = grammar.id();
    let t = grammar.id();
    assert_ne!(s, t);
}

#[test]
fn test_create_rule() {
    let mut grammar = GrammarBuilder::<TokenMatcher>::new();
    let s = grammar.id();

    let rule = Rule::new(s)
        .add_nonterminating_symbol(s)
        .add_terminating_symbol(TokenMatcher::AnyToken);

    grammar.add_rule(rule);
}

#[test]
fn test_rule_match() {
    let mut grammar = GrammarBuilder::<TokenMatcher>::new();
    let s = grammar.id();

    let rule = Rule::new(s)
        .add_terminating_symbol(TokenMatcher::AnyToken)
        .add_terminating_symbol(TokenMatcher::AnyToken);

    let input_symbols_wrong = vec![GrammarTree::<Token>::Leaf(Token::NewLine)];

    let input_symbols_right = vec![
        GrammarTree::<Token>::Leaf(Token::NewLine),
        GrammarTree::<Token>::Leaf(Token::NewLine),
    ];

    assert!(!rule.matches(&input_symbols_wrong));
    assert!(rule.matches(&input_symbols_right));
}

#[test]
fn test_rule_match_with_nonterminating_symbols() {
    let mut grammar = GrammarBuilder::<TokenMatcher>::new();
    let s = grammar.id();
    let t = grammar.id();

    let rule = Rule::new(s)
        .add_terminating_symbol(TokenMatcher::AnyToken)
        .add_nonterminating_symbol(t);

    let input_symbols = vec![
        GrammarTree::<Token>::Leaf(Token::NewLine),
        GrammarTree::<Token>::Node(GrammarNodeData::new(t, Vec::new())),
    ];

    assert!(rule.matches(&input_symbols));
}
