//! The document tree that schema descriptions are read from and written to.

use vstd::prelude::*;
use crate::raw::number_tree;
use crate::text::{decimal, render_decimal, text_is};

verus! {

/// A node of a structured document: a scalar, a sequence or a mapping.
///
/// Integers are held exactly; a number that is no integer is held as a
/// text, in the normal form that the reader gives it, which need not be the
/// form it was written in. A mapping keeps its entries in document order.
#[derive(Debug, PartialEq, Eq)]
pub enum Node {
    Null,
    Bool(bool),
    Int(i128),
    Float(String),
    Str(String),
    Sequence(Vec<Node>),
    Mapping(Vec<(Node, Node)>),
    Tagged(String, Box<Node>),
}

/// The mathematical model of a [`Node`].
pub enum Tree {
    Null,
    Bool(bool),
    Int(int),
    Float(Seq<char>),
    Str(Seq<char>),
    Sequence(Seq<Tree>),
    Mapping(Seq<(Tree, Tree)>),
    Tagged(Seq<char>, Box<Tree>),
}

impl Node {
    /// The tree that this node stands for.
    pub open spec fn tree(&self) -> Tree
        decreases self,
    {
        match self {
            Node::Null => Tree::Null,
            Node::Bool(b) => Tree::Bool(*b),
            Node::Int(v) => Tree::Int(*v as int),
            Node::Float(s) => Tree::Float(s@),
            Node::Str(s) => Tree::Str(s@),
            Node::Sequence(items) => Tree::Sequence(
                Seq::new(
                    items@.len(),
                    |i: int|
                        if 0 <= i < items@.len() {
                            items@[i].tree()
                        } else {
                            Tree::Null
                        },
                ),
            ),
            Node::Mapping(entries) => Tree::Mapping(
                Seq::new(
                    entries@.len(),
                    |i: int|
                        if 0 <= i < entries@.len() {
                            (entries@[i].0.tree(), entries@[i].1.tree())
                        } else {
                            (Tree::Null, Tree::Null)
                        },
                ),
            ),
            Node::Tagged(tag, inner) => Tree::Tagged(tag@, Box::new((**inner).tree())),
        }
    }
}

impl View for Node {
    type V = Tree;

    open spec fn view(&self) -> Tree {
        self.tree()
    }
}

impl Node {
    /// The node for a number of which the reader reports the unsigned value,
    /// the signed value and the normal form: an integer where either value
    /// is there, else the normal form.
    pub fn number(unsigned: Option<u64>, signed: Option<i64>, text: String) -> (node: Node)
        ensures
            node@ == number_tree(unsigned, signed, text@),
    {
        match unsigned {
            Some(u) => Node::Int(u as i128),
            None => match signed {
                Some(i) => Node::Int(i as i128),
                None => Node::Float(text),
            },
        }
    }
}

/// The trees of a list of nodes.
pub open spec fn trees(items: Seq<Node>) -> Seq<Tree> {
    Seq::new(items.len(), |i: int| items[i]@)
}

/// The trees of the entries of a mapping.
pub open spec fn tree_pairs(entries: Seq<(Node, Node)>) -> Seq<(Tree, Tree)> {
    Seq::new(entries.len(), |i: int| (entries[i].0@, entries[i].1@))
}

/// A sequence node stands for the sequence of the trees of its items.
pub proof fn lemma_sequence_tree(items: Vec<Node>)
    ensures
        Node::Sequence(items)@ == Tree::Sequence(trees(items@)),
{
    assert(Node::Sequence(items)@->Sequence_0 =~= trees(items@));
}

/// A mapping node stands for the mapping of the trees of its entries.
pub proof fn lemma_mapping_tree(entries: Vec<(Node, Node)>)
    ensures
        Node::Mapping(entries)@ == Tree::Mapping(tree_pairs(entries@)),
{
    assert(Node::Mapping(entries)@->Mapping_0 =~= tree_pairs(entries@));
}

/// The value that the entries of a mapping give to a text key: of several
/// entries with the key, the last.
pub open spec fn value_at(entries: Seq<(Tree, Tree)>, key: Seq<char>) -> Option<Tree>
    decreases entries.len(),
{
    if entries.len() == 0 {
        None
    } else if entries.last().0 == Tree::Str(key) {
        Some(entries.last().1)
    } else {
        value_at(entries.drop_last(), key)
    }
}

/// The value under a key, where the key is there and its value is not null.
pub open spec fn present(entries: Seq<(Tree, Tree)>, key: Seq<char>) -> Option<Tree> {
    match value_at(entries, key) {
        Some(Tree::Null) => None,
        other => other,
    }
}

/// The text of a scalar: a string as it is, an integer in decimal, any
/// other number in the normal form that the node holds, a truth value as
/// `true` or `false`. Null, sequences, mappings and tagged nodes have none.
pub open spec fn scalar_text(tree: Tree) -> Option<Seq<char>> {
    match tree {
        Tree::Str(s) => Some(s),
        Tree::Int(v) => Some(decimal(v)),
        Tree::Float(s) => Some(s),
        Tree::Bool(b) => Some(
            if b {
                "true"@
            } else {
                "false"@
            },
        ),
        _ => None,
    }
}

impl Node {
    /// A string node with the text of a literal.
    pub fn string(text: &str) -> (node: Node)
        ensures
            node@ == Tree::Str(text@),
    {
        Node::Str(String::from_str(text))
    }

    /// Whether this node is the string with the text of a literal.
    pub fn is_string(&self, text: &str) -> (same: bool)
        ensures
            same == (self@ == Tree::Str(text@)),
    {
        match self {
            Node::Str(s) => text_is(s, text),
            _ => false,
        }
    }

    /// The text of this node, where it is a scalar that has one.
    pub fn text(&self) -> (text: Option<String>)
        ensures
            text.deep_view() == scalar_text(self@),
    {
        match self {
            Node::Str(s) => Some(s.clone()),
            Node::Int(v) => Some(render_decimal(*v)),
            Node::Float(s) => Some(s.clone()),
            Node::Bool(b) => Some(
                if *b {
                    String::from_str("true")
                } else {
                    String::from_str("false")
                },
            ),
            _ => None,
        }
    }

    /// The value that the entries of a mapping give to a key.
    pub fn value_at<'a>(entries: &'a Vec<(Node, Node)>, key: &str) -> (value: Option<&'a Node>)
        ensures
            match value {
                Some(node) => value_at(tree_pairs(entries@), key@) == Some(node@),
                None => value_at(tree_pairs(entries@), key@) is None,
            },
    {
        let ghost model = tree_pairs(entries@);
        let mut i: usize = entries.len();
        proof {
            assert(model.take(i as int) =~= model);
        }
        while i > 0
            invariant
                i <= entries.len(),
                model == tree_pairs(entries@),
                value_at(model, key@) == value_at(model.take(i as int), key@),
            decreases i,
        {
            i = i - 1;
            proof {
                assert(model.take(i + 1).drop_last() =~= model.take(i as int));
                assert(model.take(i + 1).last() == model[i as int]);
            }
            if entries[i].0.is_string(key) {
                return Some(&entries[i].1);
            }
        }
        None
    }

    /// The value under a key, where the key is there and its value is not
    /// null.
    pub fn present<'a>(entries: &'a Vec<(Node, Node)>, key: &str) -> (value: Option<&'a Node>)
        ensures
            match value {
                Some(node) => present(tree_pairs(entries@), key@) == Some(node@),
                None => present(tree_pairs(entries@), key@) is None,
            },
    {
        match Node::value_at(entries, key) {
            Some(Node::Null) => None,
            other => other,
        }
    }
}

} // verus!
