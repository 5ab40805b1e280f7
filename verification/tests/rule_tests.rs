use tiny_basic_compiler::grammar::GrammarBuilder;
use tiny_basic_compiler::grammar::GrammarNodeData;
use tiny_basic_compiler::grammar::GrammarTree;
use tiny_basic_compiler::rule::Rule;
use tiny_basic_compiler::token::Token;
use tiny_basic_compiler::token::TokenMatcher;

#[test]
fn mod_test_create_symbol() {
    let mut grammar = GrammarBuilder::<TokenMatcher>::new();
    let s = grammar.id();
    let t = grammar.id();
    assert_ne!(s, t);
}

#[test]
fn mod_test_create_rule() {
    let mut grammar = GrammarBuilder::<TokenMatcher>::new();
    let s = grammar.id();

    let rule = Rule::new(s)
        .add_nonterminating_symbol(s)
        .add_terminating_symbol(TokenMatcher::AnyToken);

    grammar.add_rule(rule);
}

#[test]
fn mod_test_rule_match() {
    let mut grammar = GrammarBuilder::<TokenMatcher>::new();
    let s = grammar.id();

    let rule = Rule::new(s)
        .add_terminating_symbol(TokenMatcher::AnyToken)
        .add_terminating_symbol(TokenMatcher::AnyToken);

    let input_symbols_wrong = vec![GrammarTree::<Token>::Leaf(Token::NewLine)];

    let input_symbols_right = vec![
        GrammarTree::<Token>::Leaf(Token::NewLine),
        GrammarTree::<Token>::Leaf(Token::NewLine),
    ];

    assert!(!rule.matches(&input_symbols_wrong));
    assert!(rule.matches(&input_symbols_right));
}

#[test]
fn mod_test_rule_match_with_nonterminating_symbols() {
    let mut grammar = GrammarBuilder::<TokenMatcher>::new();
    let s = grammar.id();
    let t = grammar.id();

    let rule = Rule::new(s)
        .add_terminating_symbol(TokenMatcher::AnyToken)
        .add_nonterminating_symbol(t);

    let input_symbols = vec![
        GrammarTree::<Token>::Leaf(Token::NewLine),
        GrammarTree::<Token>::Node(GrammarNodeData::new(t, Vec::new())),
    ];

    assert!(rule.matches(&input_symbols));
}

#[test]
fn test_rule_match_rejects_wrong_kind_pairings() {
    let mut grammar = GrammarBuilder::<TokenMatcher>::new();
    let s = grammar.id();
    let t = grammar.id();

    let terminal_rule = Rule::new(s).add_terminating_symbol(TokenMatcher::AnyToken);
    let nonterminal_rule: Rule<TokenMatcher> = Rule::new(s).add_nonterminating_symbol(t);

    let leaf = vec![GrammarTree::<Token>::Leaf(Token::NewLine)];
    let node = vec![GrammarTree::<Token>::Node(GrammarNodeData::new(t, Vec::new()))];

    assert!(terminal_rule.matches(&leaf));
    assert!(!terminal_rule.matches(&node));
    assert!(!nonterminal_rule.matches(&leaf));
    assert!(nonterminal_rule.matches(&node));
}

#[test]
fn test_rule_match_compares_node_symbols() {
    let mut grammar = GrammarBuilder::<TokenMatcher>::new();
    let s = grammar.id();
    let t = grammar.id();

    let rule: Rule<TokenMatcher> = Rule::new(s).add_nonterminating_symbol(t);

    let wrong_symbol = vec![GrammarTree::<Token>::Node(GrammarNodeData::new(s, Vec::new()))];
    let right_symbol = vec![GrammarTree::<Token>::Node(GrammarNodeData::new(t, Vec::new()))];

    assert!(!rule.matches(&wrong_symbol));
    assert!(rule.matches(&right_symbol));
}

#[test]
fn test_rule_input_symbol_is_kept() {
    let mut grammar = GrammarBuilder::<TokenMatcher>::new();
    let s = grammar.id();
    let rule = Rule::new(s).add_terminating_symbol(TokenMatcher::AnyToken);
    assert_eq!(rule.input_symbol(), s);
}
