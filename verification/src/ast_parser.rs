//! Reads syntax-tree values off generic parse trees.

use vstd::prelude::*;

use crate::ast::all_symbol_tokens;
use crate::ast::rel_op_of_symbols;
use crate::ast::symbols_of_tokens;
use crate::ast::ParseError;
use crate::ast::RelOpSymbol;
use crate::grammar::GrammarTree;
use crate::grammar::ParseGrammarTree;
use crate::token::Token;

verus! {

broadcast use vstd::std_specs::vec::group_vec_axioms, vstd::seq::group_seq_axioms;

/// Whether every child of a parse-tree node is a leaf.
pub open spec fn all_leaves(children: Seq<Box<GrammarTree<Token>>>) -> bool {
    forall|i: int| 0 <= i < children.len() ==> *(#[trigger] children[i]) matches GrammarTree::Leaf(
        _,
    )
}

/// The tokens held by a run of leaf children, in stored order.
pub open spec fn leaf_tokens(children: Seq<Box<GrammarTree<Token>>>) -> Seq<Token> {
    children.map_values(|c: Box<GrammarTree<Token>>| (*c)->Leaf_0)
}

impl ParseGrammarTree for RelOpSymbol {
    type Lang = Token;

    type Err = ParseError;

    /// Reads a relational operator off a parse tree: the tree must be an
    /// interior node whose children are all leaves holding symbol tokens
    /// that together spell one of the relational operators. A node stores
    /// its children in pop order, topmost first, so this reader walks them
    /// last to first to recover source order.
    #[verifier::loop_isolation(false)]
    fn parse(from: GrammarTree<Token>) -> (r: Result<RelOpSymbol, ParseError>)
        ensures
            match from {
                GrammarTree::Leaf(_) => r == Err::<RelOpSymbol, ParseError>(
                    ParseError::ExpectedNode,
                ),
                GrammarTree::Node(d) => if !all_leaves(d.children_spec()) {
                    r == Err::<RelOpSymbol, ParseError>(ParseError::ExpectedLeaf)
                } else if !all_symbol_tokens(leaf_tokens(d.children_spec()).reverse()) {
                    r == Err::<RelOpSymbol, ParseError>(ParseError::ExpectedSymbolToken)
                } else {
                    r == (match rel_op_of_symbols(
                        symbols_of_tokens(leaf_tokens(d.children_spec()).reverse()),
                    ) {
                        Some(op) => Ok::<RelOpSymbol, ParseError>(op),
                        None => Err::<RelOpSymbol, ParseError>(ParseError::UnrecognizedRelOp),
                    })
                },
            },
    {
        match from {
            GrammarTree::Leaf(_) => Err(ParseError::ExpectedNode),
            GrammarTree::Node(node) => {
                let ghost child_seq = node.children_spec();
                let mut children = node.children();
                let mut tokens: Vec<Token> = Vec::new();
                let ghost mut taken: int = 0;
                while children.len() > 0
                    invariant
                        0 <= taken <= child_seq.len(),
                        children@ == child_seq.take(child_seq.len() - taken),
                        tokens@.len() == taken,
                        forall|k: int|
                            0 <= k < taken ==> *(#[trigger] child_seq[child_seq.len() - 1 - k]) matches GrammarTree::Leaf(_),
                        forall|k: int|
                            0 <= k < taken ==> tokens@[k] == (*child_seq[child_seq.len() - 1 - k])->Leaf_0,
                    decreases children@.len(),
                {
                    let child = children.pop().unwrap();
                    let ghost child_value = *child;
                    proof {
                        assert(child_value == *child_seq[child_seq.len() - 1 - taken]);
                    }
                    match *child {
                        GrammarTree::Leaf(token) => {
                            tokens.push(token);
                        },
                        _ => {
                            proof {
                                assert(!(child_value matches GrammarTree::Leaf(_)));
                                assert(!all_leaves(child_seq));
                            }
                            return Err(ParseError::ExpectedLeaf);
                        },
                    }
                    proof {
                        taken = taken + 1;
                    }
                }
                proof {
                    assert(taken == child_seq.len());
                    assert forall|i: int| 0 <= i < child_seq.len() implies *(
                    #[trigger] child_seq[i]) matches GrammarTree::Leaf(_) by {
                        assert(*child_seq[child_seq.len() - 1 - (child_seq.len() - 1 - i)] matches GrammarTree::Leaf(
                            _,
                        ));
                    }
                    assert(tokens@ =~= leaf_tokens(child_seq).reverse());
                }
                RelOpSymbol::try_from_tokens(tokens.as_slice())
            },
        }
    }
}

} // verus!
