//! The tree as the YAML reader hands it over, and the rule that makes a
//! document tree of it.

use vstd::prelude::*;
use crate::node::{lemma_mapping_tree, lemma_sequence_tree, tree_pairs, trees, Node, Tree};

verus! {

/// A node as the YAML reader reports it. Of a number the reader reports
/// three things: its value as an unsigned integer and as a signed integer,
/// each where it has one, and its normal form as a text.
#[derive(Debug, PartialEq, Eq)]
pub enum RawNode {
    Null,
    Bool(bool),
    Number(Option<u64>, Option<i64>, String),
    Str(String),
    Sequence(Vec<RawNode>),
    Mapping(Vec<(RawNode, RawNode)>),
    Tagged(String, Box<RawNode>),
}

/// The mathematical model of a [`RawNode`].
pub enum RawTree {
    Null,
    Bool(bool),
    Number(Option<u64>, Option<i64>, Seq<char>),
    Str(Seq<char>),
    Sequence(Seq<RawTree>),
    Mapping(Seq<(RawTree, RawTree)>),
    Tagged(Seq<char>, Box<RawTree>),
}

impl RawNode {
    /// The raw tree that this node stands for.
    pub open spec fn raw_tree(&self) -> RawTree
        decreases self,
    {
        match self {
            RawNode::Null => RawTree::Null,
            RawNode::Bool(b) => RawTree::Bool(*b),
            RawNode::Number(unsigned, signed, text) => RawTree::Number(*unsigned, *signed, text@),
            RawNode::Str(s) => RawTree::Str(s@),
            RawNode::Sequence(items) => RawTree::Sequence(
                Seq::new(
                    items@.len(),
                    |i: int|
                        if 0 <= i < items@.len() {
                            items@[i].raw_tree()
                        } else {
                            RawTree::Null
                        },
                ),
            ),
            RawNode::Mapping(entries) => RawTree::Mapping(
                Seq::new(
                    entries@.len(),
                    |i: int|
                        if 0 <= i < entries@.len() {
                            (entries@[i].0.raw_tree(), entries@[i].1.raw_tree())
                        } else {
                            (RawTree::Null, RawTree::Null)
                        },
                ),
            ),
            RawNode::Tagged(tag, inner) => RawTree::Tagged(tag@, Box::new((**inner).raw_tree())),
        }
    }
}

impl View for RawNode {
    type V = RawTree;

    open spec fn view(&self) -> RawTree {
        self.raw_tree()
    }
}

/// The tree of a number: the integer where the reader reports an unsigned
/// or a signed value, else the number's normal form.
pub open spec fn number_tree(unsigned: Option<u64>, signed: Option<i64>, text: Seq<char>) -> Tree {
    match (unsigned, signed) {
        (Some(u), _) => Tree::Int(u as int),
        (None, Some(i)) => Tree::Int(i as int),
        (None, None) => Tree::Float(text),
    }
}

/// The document tree of a raw tree: a number becomes what `number_tree`
/// says, and everything else stays as it is, in its order.
pub open spec fn tree_of_raw(raw: RawTree) -> Tree
    decreases raw,
{
    match raw {
        RawTree::Null => Tree::Null,
        RawTree::Bool(b) => Tree::Bool(b),
        RawTree::Number(unsigned, signed, text) => number_tree(unsigned, signed, text),
        RawTree::Str(s) => Tree::Str(s),
        RawTree::Sequence(items) => Tree::Sequence(
            Seq::new(
                items.len(),
                |i: int|
                    if 0 <= i < items.len() {
                        tree_of_raw(items[i])
                    } else {
                        Tree::Null
                    },
            ),
        ),
        RawTree::Mapping(entries) => Tree::Mapping(
            Seq::new(
                entries.len(),
                |i: int|
                    if 0 <= i < entries.len() {
                        (tree_of_raw(entries[i].0), tree_of_raw(entries[i].1))
                    } else {
                        (Tree::Null, Tree::Null)
                    },
            ),
        ),
        RawTree::Tagged(tag, inner) => Tree::Tagged(tag, Box::new(tree_of_raw(*inner))),
    }
}

/// Makes a document tree of what the reader reported.
pub fn node_of_raw(raw: &RawNode) -> (node: Node)
    ensures
        node@ == tree_of_raw(raw@),
    decreases raw,
{
    match raw {
        RawNode::Null => Node::Null,
        RawNode::Bool(b) => Node::Bool(*b),
        RawNode::Number(unsigned, signed, text) => Node::number(*unsigned, *signed, text.clone()),
        RawNode::Str(s) => Node::Str(s.clone()),
        RawNode::Sequence(items) => {
            let ghost target = tree_of_raw(raw@)->Sequence_0;
            let mut nodes: Vec<Node> = Vec::new();
            let mut i: usize = 0;
            proof {
                assert(trees(nodes@) =~= target.take(0));
            }
            while i < items.len()
                invariant
                    i <= items.len(),
                    *raw == RawNode::Sequence(*items),
                    target == tree_of_raw(raw@)->Sequence_0,
                    trees(nodes@) == target.take(i as int),
                decreases items.len() - i,
            {
                let ghost before = trees(nodes@);
                let node = node_of_raw(&items[i]);
                let ghost tree = node@;
                nodes.push(node);
                proof {
                    assert(trees(nodes@) =~= before.push(tree));
                    assert(target.take(i + 1) =~= target.take(i as int).push(target[i as int]));
                }
                i = i + 1;
            }
            proof {
                assert(target.take(i as int) =~= target);
                lemma_sequence_tree(nodes);
            }
            Node::Sequence(nodes)
        },
        RawNode::Mapping(entries) => {
            let ghost target = tree_of_raw(raw@)->Mapping_0;
            let mut pairs: Vec<(Node, Node)> = Vec::new();
            let mut i: usize = 0;
            proof {
                assert(tree_pairs(pairs@) =~= target.take(0));
            }
            while i < entries.len()
                invariant
                    i <= entries.len(),
                    *raw == RawNode::Mapping(*entries),
                    target == tree_of_raw(raw@)->Mapping_0,
                    tree_pairs(pairs@) == target.take(i as int),
                decreases entries.len() - i,
            {
                let ghost before = tree_pairs(pairs@);
                let key = node_of_raw(&entries[i].0);
                let value = node_of_raw(&entries[i].1);
                let ghost pair = (key@, value@);
                pairs.push((key, value));
                proof {
                    assert(tree_pairs(pairs@) =~= before.push(pair));
                    assert(target.take(i + 1) =~= target.take(i as int).push(target[i as int]));
                }
                i = i + 1;
            }
            proof {
                assert(target.take(i as int) =~= target);
                lemma_mapping_tree(pairs);
            }
            Node::Mapping(pairs)
        },
        RawNode::Tagged(tag, inner) => Node::Tagged(tag.clone(), Box::new(node_of_raw(inner))),
    }
}

} // verus!
