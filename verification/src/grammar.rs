//! The grammar engine: parse trees, grammars built from substitution rules,
//! and the shift-reduce parse over a token stream.

use vstd::prelude::*;

use crate::ids::Id;
use crate::ids::IdGenerator;
use crate::rule::Rule;
use crate::rule::TokenPredicate;

verus! {

broadcast use vstd::std_specs::vec::group_vec_axioms, vstd::seq::group_seq_axioms;

/// A parse tree over tokens of a language `L`: a leaf holds one input token,
/// an interior node holds the identifier of the nonterminating symbol it was
/// reduced to plus its ordered children.
pub enum GrammarTree<L> {
    Leaf(L),
    Node(GrammarNodeData<L>),
}

/// The data of an interior [`GrammarTree`] node: the symbol identifier of
/// the rule that produced it and the exclusively owned children.
pub struct GrammarNodeData<L> {
    symbol: Id,
    children: Vec<Box<GrammarTree<L>>>,
}

/// The mathematical shape of a [`GrammarTree`]: the same tree with the
/// ownership plumbing stripped away. Contracts speak of trees through this
/// type, via [`tree_view`].
pub enum TreeShape<L> {
    Leaf(L),
    Node(Id, Seq<TreeShape<L>>),
}

/// The shape of a parse tree: leaves keep their token, interior nodes keep
/// their symbol identifier and the shapes of their children, in order.
pub open spec fn tree_view<L>(t: GrammarTree<L>) -> TreeShape<L>
    decreases t,
{
    match t {
        GrammarTree::Leaf(l) => TreeShape::Leaf(l),
        GrammarTree::Node(d) => TreeShape::Node(
            d.symbol_spec(),
            boxed_trees_view(d.children_spec()),
        ),
    }
}

/// The shapes of a run of owned child trees, elementwise and in order.
pub open spec fn boxed_trees_view<L>(s: Seq<Box<GrammarTree<L>>>) -> Seq<TreeShape<L>>
    decreases s,
{
    if s.len() == 0 {
        Seq::empty()
    } else {
        boxed_trees_view(s.drop_last()).push(tree_view(*s.last()))
    }
}

/// [`boxed_trees_view`] maps [`tree_view`] over its argument, elementwise.
pub proof fn lemma_boxed_trees_view<L>(s: Seq<Box<GrammarTree<L>>>)
    ensures
        boxed_trees_view(s).len() == s.len(),
        forall|k: int| 0 <= k < s.len() ==> boxed_trees_view(s)[k] == tree_view(*s[k]),
    decreases s.len(),
{
    if s.len() > 0 {
        lemma_boxed_trees_view(s.drop_last());
    }
}

/// The shapes of a run of parse trees, elementwise.
pub open spec fn views_of<L>(s: Seq<GrammarTree<L>>) -> Seq<TreeShape<L>> {
    s.map_values(|t: GrammarTree<L>| tree_view(t))
}

impl<L> GrammarNodeData<L> {
    /// The identifier of the nonterminating symbol this node stands for.
    pub closed spec fn symbol_spec(&self) -> Id {
        self.symbol
    }

    /// The children, in stored order.
    pub closed spec fn children_spec(&self) -> Seq<Box<GrammarTree<L>>> {
        self.children@
    }

    /// Creates an interior node from a symbol identifier and its children.
    pub fn new(symbol: Id, children: Vec<Box<GrammarTree<L>>>) -> (r: GrammarNodeData<L>)
        ensures
            r.symbol_spec() == symbol,
            r.children_spec() == children@,
    {
        GrammarNodeData { symbol, children }
    }

    /// The identifier of the nonterminating symbol this node stands for.
    pub fn symbol(&self) -> (r: Id)
        ensures
            r == self.symbol_spec(),
    {
        self.symbol
    }

    /// Consumes the node and hands out its children.
    pub fn children(self) -> (r: Vec<Box<GrammarTree<L>>>)
        ensures
            r@ == self.children_spec(),
    {
        self.children
    }
}

/// Implemented by language-layer types that can be read off a generic parse
/// tree, such as a specific syntax-tree node.
pub trait ParseGrammarTree: Sized {
    type Lang;

    type Err;

    fn parse(from: GrammarTree<Self::Lang>) -> Result<Self, Self::Err>;
}

/// The index of the first rule, in grammar iteration order, whose right-hand
/// side matches the candidate run, or nothing when no rule matches.
pub open spec fn first_matching_rule<P: TokenPredicate>(
    rules: Seq<Rule<P>>,
    candidate: Seq<TreeShape<P::Token>>,
) -> Option<int>
    decreases rules.len(),
{
    if rules.len() == 0 {
        None
    } else if rules[0].spec_matches(candidate) {
        Some(0int)
    } else {
        match first_matching_rule(rules.drop_first(), candidate) {
            Some(k) => Some(k + 1),
            None => None,
        }
    }
}

/// The least drop count `i`, at least `lo` and below the stack length, such
/// that some rule matches the stack suffix starting at `i` — so the longest
/// matchable suffix wins. Nothing when no suffix of the stack matches any
/// rule.
pub open spec fn first_reducible_index<P: TokenPredicate>(
    rules: Seq<Rule<P>>,
    stack: Seq<TreeShape<P::Token>>,
    lo: int,
) -> Option<int>
    decreases stack.len() - lo,
{
    if lo < 0 || lo >= stack.len() {
        None
    } else if first_matching_rule(rules, stack.skip(lo)) is Some {
        Some(lo)
    } else {
        first_reducible_index(rules, stack, lo + 1)
    }
}

/// One engine step on the stack of tree shapes: the token is shifted as a
/// leaf; then, if any stack suffix matches a rule, the longest such suffix —
/// ties broken by rule order — is replaced by one node that carries the
/// winning rule's input symbol and the suffix as children in pop order,
/// topmost first. When no suffix matches, the stack is left as shifted.
pub open spec fn shift_reduce_step<P: TokenPredicate>(
    rules: Seq<Rule<P>>,
    stack: Seq<TreeShape<P::Token>>,
    token: P::Token,
) -> Seq<TreeShape<P::Token>> {
    let stack1 = stack.push(TreeShape::Leaf(token));
    match first_reducible_index(rules, stack1, 0) {
        None => stack1,
        Some(i) => match first_matching_rule(rules, stack1.skip(i)) {
            Some(k) => stack1.take(i).push(
                TreeShape::Node(rules[k].input_symbol_spec(), stack1.skip(i).reverse()),
            ),
            None => stack1,
        },
    }
}

/// The working stack after consuming `input` from an empty stack, one
/// shift-reduce step per token.
pub open spec fn run_stack<P: TokenPredicate>(
    rules: Seq<Rule<P>>,
    input: Seq<P::Token>,
) -> Seq<TreeShape<P::Token>>
    decreases input.len(),
{
    if input.len() == 0 {
        Seq::empty()
    } else {
        shift_reduce_step(rules, run_stack(rules, input.drop_last()), input.last())
    }
}

/// Builds a [`Grammar`]: the first rule added becomes the default rule, all
/// later ones are kept in insertion order after it. The builder owns the
/// identifier generator for its grammar-construction session.
pub struct GrammarBuilder<P> {
    id_generator: IdGenerator,
    starting_rule: Option<Rule<P>>,
    rules: Vec<Rule<P>>,
}

impl<P: TokenPredicate> GrammarBuilder<P> {
    /// The identifier generator owned by this builder.
    pub closed spec fn generator_spec(&self) -> IdGenerator {
        self.id_generator
    }

    /// The default rule, once one was added.
    pub closed spec fn starting_rule_spec(&self) -> Option<Rule<P>> {
        self.starting_rule
    }

    /// The rules added after the default one, in insertion order.
    pub closed spec fn extra_rules_spec(&self) -> Seq<Rule<P>> {
        self.rules@
    }

    /// Creates a builder with no rules. Its identifiers are distinct from
    /// one another but carry no particular scope; when identifiers of
    /// several grammars must never collide, build each grammar with
    /// [`GrammarBuilder::with_scope`] under a scope of its own instead.
    pub fn new() -> (r: GrammarBuilder<P>)
        ensures
            r.generator_spec().next_spec() == 0,
            r.starting_rule_spec() is None,
            r.extra_rules_spec() == Seq::<Rule<P>>::empty(),
    {
        GrammarBuilder {
            id_generator: IdGenerator::new(0),
            starting_rule: None,
            rules: Vec::new(),
        }
    }

    /// Creates a builder with no rules whose identifiers all carry the
    /// given scope, so that grammars built under distinct scopes never
    /// share a symbol identifier. Handing every builder a scope of its own
    /// is the caller's duty; a host program draws scopes from one shared
    /// counter of its own.
    pub fn with_scope(scope: usize) -> (r: GrammarBuilder<P>)
        ensures
            r.generator_spec().scope_spec() == scope,
            r.generator_spec().next_spec() == 0,
            r.starting_rule_spec() is None,
            r.extra_rules_spec() == Seq::<Rule<P>>::empty(),
    {
        GrammarBuilder {
            id_generator: IdGenerator::new(scope),
            starting_rule: None,
            rules: Vec::new(),
        }
    }

    /// Issues a fresh symbol identifier from the builder's generator.
    pub fn id(&mut self) -> (r: Id)
        requires
            old(self).generator_spec().next_spec() < usize::MAX,
        ensures
            r.scope_spec() == old(self).generator_spec().scope_spec(),
            r.index_spec() == old(self).generator_spec().next_spec(),
            final(self).generator_spec().scope_spec() == old(self).generator_spec().scope_spec(),
            final(self).generator_spec().next_spec() == old(self).generator_spec().next_spec() + 1,
            final(self).starting_rule_spec() == old(self).starting_rule_spec(),
            final(self).extra_rules_spec() == old(self).extra_rules_spec(),
    {
        self.id_generator.id()
    }

    /// Adds a rule. The first rule added becomes the grammar's default rule;
    /// every later rule is appended after it, and that order is the
    /// tie-break when several rules match the same span.
    pub fn add_rule(self, rule: Rule<P>) -> (r: Self)
        ensures
            r.generator_spec() == self.generator_spec(),
            self.starting_rule_spec() is None ==> r.starting_rule_spec() == Some(rule)
                && r.extra_rules_spec() == self.extra_rules_spec(),
            self.starting_rule_spec() is Some ==> r.starting_rule_spec()
                == self.starting_rule_spec() && r.extra_rules_spec() == self.extra_rules_spec().push(
                rule,
            ),
    {
        let mut this = self;
        if this.starting_rule.is_none() {
            this.starting_rule = Some(rule);
        } else {
            this.rules.push(rule);
        }
        this
    }

    /// Builds the grammar, or nothing when no rule was ever added.
    pub fn build(self) -> (r: Option<Grammar<P>>)
        ensures
            r is Some <==> self.starting_rule_spec() is Some,
            r matches Some(g) ==> self.starting_rule_spec() matches Some(d) && g.rules_seq()
                == seq![d] + self.extra_rules_spec(),
    {
        match self.starting_rule {
            None => None,
            Some(default_rule) => Some(
                Grammar { id_generator: self.id_generator, default_rule, rules: self.rules },
            ),
        }
    }
}

/// A completed set of rules defining a formal grammar over a language's
/// tokens. Read-only after construction.
pub struct Grammar<P> {
    id_generator: IdGenerator,
    default_rule: Rule<P>,
    rules: Vec<Rule<P>>,
}

impl<P: TokenPredicate> Grammar<P> {
    /// All rules in grammar iteration order: the default rule first, then
    /// the additional rules in insertion order.
    pub closed spec fn rules_seq(&self) -> Seq<Rule<P>> {
        seq![self.default_rule] + self.rules@
    }

    /// The input symbol of the first rule, in grammar iteration order, that
    /// matches the candidate run, or nothing when no rule matches.
    fn find_first_match(&self, candidate: &[GrammarTree<P::Token>]) -> (r: Option<Id>)
        ensures
            match first_matching_rule(self.rules_seq(), views_of(candidate@)) {
                Some(k) => r == Some(self.rules_seq()[k].input_symbol_spec()),
                None => r is None,
            },
    {
        proof {
            lemma_first_matching_rule_characterization(self.rules_seq(), views_of(candidate@));
        }
        if self.default_rule.matches(candidate) {
            proof {
                lemma_first_matching_rule_complete(self.rules_seq(), views_of(candidate@), 0);
            }
            return Some(self.default_rule.input_symbol());
        }
        let n = self.rules.len();
        let mut j: usize = 0;
        while j < n
            invariant
                n == self.rules@.len(),
                j <= n,
                self.rules_seq().len() == n + 1,
                forall|k: int|
                    0 <= k < j + 1 ==> !(#[trigger] self.rules_seq()[k]).spec_matches(
                        views_of(candidate@),
                    ),
            decreases n - j,
        {
            assert(self.rules_seq()[j + 1] == self.rules@[j as int]);
            if self.rules[j].matches(candidate) {
                proof {
                    lemma_first_matching_rule_complete(self.rules_seq(), views_of(candidate@), j + 1);
                }
                return Some(self.rules[j].input_symbol());
            }
            j = j + 1;
        }
        proof {
            match first_matching_rule(self.rules_seq(), views_of(candidate@)) {
                Some(k) => {
                    assert(!self.rules_seq()[k].spec_matches(views_of(candidate@)));
                    assert(false);
                },
                None => {},
            }
        }
        None
    }

    /// Parses the input token stream with one pass of shift and greedy
    /// reduce: each token is shifted as a leaf, then the longest matchable
    /// stack suffix, if any, is reduced — at most once per token. A reduced
    /// node stores the matched suffix in pop order, topmost child first.
    /// Returns the node on top of the final working stack, or nothing when
    /// the input was empty; elements left below the top are discarded
    /// unvalidated.
    #[verifier::loop_isolation(false)]
    pub fn parse(&self, input: Vec<P::Token>) -> (r: Option<GrammarTree<P::Token>>)
        ensures
            r is Some <==> input@.len() > 0,
            r matches Some(t) ==> run_stack(self.rules_seq(), input@).len() > 0 && tree_view(t)
                == run_stack(self.rules_seq(), input@).last(),
    {
        let ghost all_input = input@;
        let mut input = input;
        let mut input_stack: Vec<GrammarTree<P::Token>> = Vec::new();
        let ghost mut processed: Seq<P::Token> = Seq::empty();
        while input.len() > 0
            invariant
                processed + input@ == all_input,
                views_of(input_stack@) == run_stack(self.rules_seq(), processed),
                processed.len() > 0 <==> input_stack@.len() > 0,
            decreases input@.len(),
        {
            let ghost prev_stack = input_stack@;
            let next_symbol = input.remove(0);
            proof {
                assert(processed.push(next_symbol) + input@ =~= all_input);
            }
            // Shift the new token onto the stack.
            input_stack.push(GrammarTree::Leaf(next_symbol));
            let ghost stack1 = input_stack@;
            let ghost stack1v = views_of(stack1);
            proof {
                assert(stack1v =~= views_of(prev_stack).push(TreeShape::Leaf(next_symbol)));
            }

            // Greedy reduction search: try the longest suffix first and
            // shrink toward the topmost element; the first rule in grammar
            // iteration order that matches the suffix wins.
            let stack_len = input_stack.len();
            let mut i: usize = 0;
            let mut reduce_found = false;
            while i < stack_len && !reduce_found
                invariant
                    stack_len == stack1.len(),
                    i <= stack_len,
                    !reduce_found ==> input_stack@ == stack1,
                    !reduce_found ==> forall|j: int|
                        0 <= j < i ==> first_matching_rule(
                            self.rules_seq(),
                            #[trigger] stack1v.skip(j),
                        ) is None,
                    reduce_found ==> views_of(input_stack@) == shift_reduce_step(
                        self.rules_seq(),
                        views_of(prev_stack),
                        next_symbol,
                    ),
                    reduce_found ==> input_stack@.len() > 0,
                decreases stack_len - i + (if reduce_found { 0int } else { 1int }),
            {
                let candidate = vstd::slice::slice_subrange(input_stack.as_slice(), i, stack_len);
                proof {
                    assert(candidate@ =~= stack1.skip(i as int));
                    assert(views_of(candidate@) =~= stack1v.skip(i as int));
                }
                match self.find_first_match(candidate) {
                    None => {
                        i = i + 1;
                    },
                    Some(new_symbol) => {
                        proof {
                            lemma_first_reducible_from(self.rules_seq(), stack1v, 0, i as int);
                            assert(stack1.take(stack1.len() - 0) =~= stack1);
                        }
                        // Pop the matched suffix, topmost element first, and
                        // replace it with one node carrying the rule's input
                        // symbol.
                        let count = stack_len - i;
                        let mut children: Vec<Box<GrammarTree<P::Token>>> = Vec::new();
                        let mut popped: usize = 0;
                        while popped < count
                            invariant
                                popped <= count,
                                count <= stack1.len(),
                                input_stack@ == stack1.take(stack1.len() - popped),
                                children@.len() == popped,
                                forall|j: int|
                                    0 <= j < popped ==> *(#[trigger] children@[j]) == stack1[
                                        stack1.len() - 1 - j
                                    ],
                            decreases count - popped,
                        {
                            let node = input_stack.pop().unwrap();
                            children.push(Box::new(node));
                            popped = popped + 1;
                        }
                        let ghost child_seq = children@;
                        input_stack.push(
                            GrammarTree::Node(GrammarNodeData { symbol: new_symbol, children }),
                        );
                        proof {
                            let rules = self.rules_seq();
                            let suffixv = stack1v.skip(i as int);
                            let node = input_stack@.last();
                            let node_shape = tree_view(node);
                            assert(input_stack@ == stack1.take(i as int).push(node));
                            lemma_boxed_trees_view(child_seq);
                            assert forall|k: int| 0 <= k < child_seq.len() implies tree_view(
                                *child_seq[k],
                            ) == suffixv.reverse()[k] by {
                                assert(*child_seq[k] == stack1[stack1.len() - 1 - k]);
                                assert(stack1v[stack1.len() - 1 - k] == tree_view(
                                    stack1[stack1.len() - 1 - k],
                                ));
                                assert(suffixv.reverse()[k] == suffixv[suffixv.len() - 1 - k]);
                                assert(suffixv[suffixv.len() - 1 - k] == stack1v[stack1.len() - 1
                                    - k]);
                            }
                            assert(node_shape matches TreeShape::Node(sym, kids) ==> kids
                                =~= suffixv.reverse());
                            assert(views_of(input_stack@) =~= stack1v.take(i as int).push(
                                node_shape,
                            ));
                            assert(views_of(input_stack@) == shift_reduce_step(
                                rules,
                                views_of(prev_stack),
                                next_symbol,
                            ));
                        }
                        reduce_found = true;
                    },
                }
            }
            proof {
                if !reduce_found {
                    lemma_first_reducible_none(self.rules_seq(), stack1v, 0);
                    assert(views_of(input_stack@) == shift_reduce_step(
                        self.rules_seq(),
                        views_of(prev_stack),
                        next_symbol,
                    ));
                }
                let appended = processed.push(next_symbol);
                assert(appended.drop_last() =~= processed);
                assert(appended.last() == next_symbol);
                assert(views_of(input_stack@) == run_stack(self.rules_seq(), appended));
                assert(input_stack@.len() > 0);
                processed = appended;
            }
        }
        proof {
            assert(processed =~= all_input);
        }
        let ghost final_stack = input_stack@;
        let r = input_stack.pop();
        proof {
            if final_stack.len() > 0 {
                assert(views_of(final_stack).len() == final_stack.len());
                assert(views_of(final_stack)[final_stack.len() - 1] == tree_view(
                    final_stack.last(),
                ));
            }
        }
        r
    }
}

/// The result of [`first_matching_rule`] points at a matching rule and
/// nothing before it matches; a `None` result means nothing matches at all.
pub proof fn lemma_first_matching_rule_characterization<P: TokenPredicate>(
    rules: Seq<Rule<P>>,
    candidate: Seq<TreeShape<P::Token>>,
)
    ensures
        match first_matching_rule(rules, candidate) {
            Some(k) => 0 <= k < rules.len() && rules[k].spec_matches(candidate) && forall|j: int|
                0 <= j < k ==> !(#[trigger] rules[j]).spec_matches(candidate),
            None => forall|j: int|
                0 <= j < rules.len() ==> !(#[trigger] rules[j]).spec_matches(candidate),
        },
    decreases rules.len(),
{
    if rules.len() > 0 && !rules[0].spec_matches(candidate) {
        lemma_first_matching_rule_characterization(rules.drop_first(), candidate);
        assert forall|j: int| 1 <= j < rules.len() implies rules.drop_first()[j - 1] == rules[j] by {}
    }
}

/// If `rules[k]` matches and nothing before it does, then `k` is exactly the
/// index [`first_matching_rule`] picks.
pub proof fn lemma_first_matching_rule_complete<P: TokenPredicate>(
    rules: Seq<Rule<P>>,
    candidate: Seq<TreeShape<P::Token>>,
    k: int,
)
    requires
        0 <= k < rules.len(),
        rules[k].spec_matches(candidate),
        forall|j: int| 0 <= j < k ==> !(#[trigger] rules[j]).spec_matches(candidate),
    ensures
        first_matching_rule(rules, candidate) == Some(k),
    decreases rules.len(),
{
    if k > 0 {
        lemma_first_matching_rule_complete(rules.drop_first(), candidate, k - 1);
    }
}

/// If some rule matches the suffix at drop count `i` and no suffix starting
/// strictly between `lo` and `i` matches any rule, then `i` is exactly the
/// drop count [`first_reducible_index`] picks from `lo`.
pub proof fn lemma_first_reducible_from<P: TokenPredicate>(
    rules: Seq<Rule<P>>,
    stack: Seq<TreeShape<P::Token>>,
    lo: int,
    i: int,
)
    requires
        0 <= lo <= i < stack.len(),
        first_matching_rule(rules, stack.skip(i)) is Some,
        forall|j: int| lo <= j < i ==> first_matching_rule(rules, #[trigger] stack.skip(j)) is None,
    ensures
        first_reducible_index(rules, stack, lo) == Some(i),
    decreases i - lo,
{
    if lo < i {
        lemma_first_reducible_from(rules, stack, lo + 1, i);
    }
}

/// If no stack suffix from drop count `lo` on matches any rule, then there
/// is no reducible index from `lo`.
pub proof fn lemma_first_reducible_none<P: TokenPredicate>(
    rules: Seq<Rule<P>>,
    stack: Seq<TreeShape<P::Token>>,
    lo: int,
)
    requires
        0 <= lo,
        forall|j: int|
            lo <= j < stack.len() ==> first_matching_rule(rules, #[trigger] stack.skip(j)) is None,
    ensures
        first_reducible_index(rules, stack, lo) is None,
    decreases stack.len() - lo,
{
    if lo < stack.len() {
        lemma_first_reducible_none(rules, stack, lo + 1);
    }
}

} // verus!
