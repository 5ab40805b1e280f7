//! Substitution rules for formal grammars: a left-hand symbol identifier
//! rewritten from an ordered run of terminating and nonterminating symbols.

use vstd::prelude::*;

use crate::grammar::tree_view;
use crate::grammar::views_of;
use crate::grammar::GrammarTree;
use crate::grammar::TreeShape;
use crate::ids::Id;

verus! {

/// A classifier for tokens of a language `Token`. A terminating symbol in a
/// rule holds one of these and matches exactly the tokens the classifier
/// accepts. The spec function [`TokenPredicate::accepts`] is the meaning of
/// the classifier; [`TokenPredicate::check`] decides it.
pub trait TokenPredicate: Sized {
    type Token;

    /// The classification this predicate stands for.
    spec fn accepts(&self, token: &Self::Token) -> bool;

    /// Decides whether `token` is accepted.
    fn check(&self, token: &Self::Token) -> (r: bool)
        ensures
            r == self.accepts(token),
    ;
}

/// One entry of a rule's right-hand side: either a terminating symbol,
/// holding a token classifier, or a nonterminating symbol, holding the
/// identifier of a previously reduced rule.
pub enum SymbolSchema<P> {
    Terminating(P),
    Nonterminating(Id),
}

/// Whether one schema entry matches one parse-tree node: a terminating
/// schema matches only a leaf whose token its predicate accepts, and a
/// nonterminating schema matches only an interior node carrying the same
/// symbol identifier.
pub open spec fn schema_matches<P: TokenPredicate>(
    schema: SymbolSchema<P>,
    node: TreeShape<P::Token>,
) -> bool {
    match schema {
        SymbolSchema::Terminating(p) => node matches TreeShape::Leaf(t) && p.accepts(&t),
        SymbolSchema::Nonterminating(id) => node matches TreeShape::Node(sym, _children) && sym
            == id,
    }
}

/// A substitution rule: a left-hand input symbol plus the ordered right-hand
/// run of symbol schemas that reduces to it. The right-hand side is built by
/// the append-only `add_*` methods and never mutated in place afterwards.
pub struct Rule<P> {
    input_symbol: Id,
    replacement_symbols: Vec<SymbolSchema<P>>,
}

impl<P: TokenPredicate> Rule<P> {
    /// The left-hand symbol this rule reduces to.
    pub closed spec fn input_symbol_spec(&self) -> Id {
        self.input_symbol
    }

    /// The right-hand side, in match order.
    pub closed spec fn rhs_spec(&self) -> Seq<SymbolSchema<P>> {
        self.replacement_symbols@
    }

    /// Whether this rule's right-hand side matches the candidate run of
    /// parse-tree shapes, pairwise and in order, with equal lengths.
    pub open spec fn spec_matches(&self, rhs: Seq<TreeShape<P::Token>>) -> bool {
        &&& self.rhs_spec().len() == rhs.len()
        &&& forall|i: int|
            0 <= i < rhs.len() ==> schema_matches(#[trigger] self.rhs_spec()[i], rhs[i])
    }

    /// Creates a rule with the given left-hand symbol and an empty
    /// right-hand side.
    pub fn new(input_symbol: Id) -> (r: Rule<P>)
        ensures
            r.input_symbol_spec() == input_symbol,
            r.rhs_spec() == Seq::<SymbolSchema<P>>::empty(),
    {
        Rule { input_symbol, replacement_symbols: Vec::new() }
    }

    /// Appends a nonterminating symbol to the right-hand side.
    pub fn add_nonterminating_symbol(self, symbol: Id) -> (r: Self)
        ensures
            r.input_symbol_spec() == self.input_symbol_spec(),
            r.rhs_spec() == self.rhs_spec().push(SymbolSchema::Nonterminating(symbol)),
    {
        let mut this = self;
        this.replacement_symbols.push(SymbolSchema::Nonterminating(symbol));
        this
    }

    /// Appends a terminating symbol, classified by the given predicate, to
    /// the right-hand side.
    pub fn add_terminating_symbol(self, terminating_symbol_recognizer: P) -> (r: Self)
        ensures
            r.input_symbol_spec() == self.input_symbol_spec(),
            r.rhs_spec() == self.rhs_spec().push(
                SymbolSchema::Terminating(terminating_symbol_recognizer),
            ),
    {
        let mut this = self;
        this.replacement_symbols.push(SymbolSchema::Terminating(terminating_symbol_recognizer));
        this
    }

    /// Whether the candidate run matches this rule: lengths must agree and
    /// every schema entry must match the node at its position; the
    /// comparison short-circuits at the first mismatch.
    pub fn matches(&self, rhs: &[GrammarTree<P::Token>]) -> (r: bool)
        ensures
            r == self.spec_matches(views_of(rhs@)),
    {
        if self.replacement_symbols.len() != rhs.len() {
            return false;
        }
        let n = rhs.len();
        let mut i: usize = 0;
        while i < n
            invariant
                n == rhs@.len(),
                i <= n,
                self.rhs_spec().len() == n,
                forall|k: int|
                    0 <= k < i ==> schema_matches(#[trigger] self.rhs_spec()[k], tree_view(rhs@[k])),
            decreases n - i,
        {
            let node = vstd::slice::slice_index_get(rhs, i);
            let symbol_match = match (&self.replacement_symbols[i], node) {
                (SymbolSchema::Terminating(func), GrammarTree::Leaf(token)) => func.check(token),
                (SymbolSchema::Terminating(_), GrammarTree::Node(_)) => false,
                (SymbolSchema::Nonterminating(_), GrammarTree::Leaf(_)) => false,
                (SymbolSchema::Nonterminating(id), GrammarTree::Node(data)) => *id
                    == data.symbol(),
            };
            if !symbol_match {
                assert(!schema_matches(self.rhs_spec()[i as int], tree_view(rhs@[i as int])));
                assert(views_of(rhs@)[i as int] == tree_view(rhs@[i as int]));
                return false;
            }
            i = i + 1;
        }
        assert forall|k: int| 0 <= k < n implies schema_matches(
            #[trigger] self.rhs_spec()[k],
            views_of(rhs@)[k],
        ) by {
            assert(views_of(rhs@)[k] == tree_view(rhs@[k]));
        }
        true
    }

    /// The left-hand symbol this rule reduces to.
    pub fn input_symbol(&self) -> (r: Id)
        ensures
            r == self.input_symbol_spec(),
    {
        self.input_symbol
    }
}

} // verus!
