//! Why a document tree is no schema, and where in the tree.

use vstd::prelude::*;
use crate::text::{decimal, render_decimal};

verus! {

/// The kinds of failure.
#[derive(Debug, Clone, Copy, PartialEq, Eq, Hash)]
pub enum ErrorKind {
    /// A required attribute is absent.
    MissingField,
    /// `meta.endian` is present but is neither `le` nor `be`.
    InvalidEndianness,
    /// A `type` node is neither a scalar nor a well-formed switch mapping.
    AmbiguousTypeNode,
    /// `repeat: expr` without `repeat-expr`.
    MissingRepeatExpr,
    /// `repeat: until` without `repeat-until`.
    MissingRepeatUntil,
    /// A key of an enumeration table is no integer between 0 and 2^64 - 1.
    InvalidEnumCode,
    /// The text is no document, or a node has a shape that the schema grammar
    /// has no place for.
    MalformedDocument,
}

/// One step of the way from the root of a document to a node.
#[derive(Debug, Clone, PartialEq, Eq, Hash)]
pub enum PathStep {
    /// Into the value that a mapping holds under this key.
    Key(String),
    /// Into the element of a sequence, or the entry of a mapping, at this
    /// position, counted from 0.
    Index(usize),
}

/// The model of a [`PathStep`].
pub enum Step {
    Key(Seq<char>),
    Index(int),
}

/// A failure: its kind and the path from the node that was read to the place
/// of the fault.
#[derive(Debug, Clone, PartialEq, Eq)]
pub struct SchemaError {
    pub kind: ErrorKind,
    pub path: Vec<PathStep>,
}

/// The model of a [`SchemaError`].
pub struct Failure {
    pub kind: ErrorKind,
    pub path: Seq<Step>,
}

impl DeepView for PathStep {
    type V = Step;

    open spec fn deep_view(&self) -> Step {
        match self {
            PathStep::Key(key) => Step::Key(key@),
            PathStep::Index(i) => Step::Index(*i as int),
        }
    }
}

impl View for PathStep {
    type V = Step;

    open spec fn view(&self) -> Step {
        self.deep_view()
    }
}

impl DeepView for SchemaError {
    type V = Failure;

    open spec fn deep_view(&self) -> Failure {
        Failure { kind: self.kind, path: self.path.deep_view() }
    }
}

impl View for SchemaError {
    type V = Failure;

    open spec fn view(&self) -> Failure {
        self.deep_view()
    }
}

impl Failure {
    /// A failure at the node itself.
    pub open spec fn new(kind: ErrorKind) -> Failure {
        Failure { kind, path: Seq::empty() }
    }

    /// A failure at the value under a key of the node.
    pub open spec fn at_key(kind: ErrorKind, key: Seq<char>) -> Failure {
        Failure { kind, path: seq![Step::Key(key)] }
    }

    /// The same failure, seen from one step further up.
    pub open spec fn under(self, step: Step) -> Failure {
        Failure { kind: self.kind, path: seq![step] + self.path }
    }

    /// The failure in words: the name of its kind, ` at ` and the path
    /// from the root, which is written `$`.
    pub open spec fn text(self) -> Seq<char> {
        kind_name(self.kind) + " at $"@ + path_text(self.path)
    }
}

impl ErrorKind {
    /// The name of this kind of failure.
    pub fn name(&self) -> (name: &'static str)
        ensures
            name@ == kind_name(*self),
    {
        match self {
            ErrorKind::MissingField => "MissingField",
            ErrorKind::InvalidEndianness => "InvalidEndianness",
            ErrorKind::AmbiguousTypeNode => "AmbiguousTypeNode",
            ErrorKind::MissingRepeatExpr => "MissingRepeatExpr",
            ErrorKind::MissingRepeatUntil => "MissingRepeatUntil",
            ErrorKind::InvalidEnumCode => "InvalidEnumCode",
            ErrorKind::MalformedDocument => "MalformedDocument",
        }
    }
}

/// The name of a kind of failure.
pub open spec fn kind_name(kind: ErrorKind) -> Seq<char> {
    match kind {
        ErrorKind::MissingField => "MissingField"@,
        ErrorKind::InvalidEndianness => "InvalidEndianness"@,
        ErrorKind::AmbiguousTypeNode => "AmbiguousTypeNode"@,
        ErrorKind::MissingRepeatExpr => "MissingRepeatExpr"@,
        ErrorKind::MissingRepeatUntil => "MissingRepeatUntil"@,
        ErrorKind::InvalidEnumCode => "InvalidEnumCode"@,
        ErrorKind::MalformedDocument => "MalformedDocument"@,
    }
}

/// A step as it is written in a path: `.key` or `[position]`.
pub open spec fn step_text(step: Step) -> Seq<char> {
    match step {
        Step::Key(key) => "."@ + key,
        Step::Index(i) => "["@ + decimal(i) + "]"@,
    }
}

/// A path as it is written: its steps, one after the other.
pub open spec fn path_text(path: Seq<Step>) -> Seq<char>
    decreases path.len(),
{
    if path.len() == 0 {
        Seq::empty()
    } else {
        path_text(path.drop_last()) + step_text(path.last())
    }
}

/// A result with its failure seen from one step further up.
pub open spec fn under<T>(r: Result<T, Failure>, step: Step) -> Result<T, Failure> {
    match r {
        Ok(v) => Ok(v),
        Err(e) => Err(e.under(step)),
    }
}

/// The model of the result of reading: the model of the value or of the
/// failure.
pub open spec fn outcome<T: DeepView>(r: Result<T, SchemaError>) -> Result<T::V, Failure> {
    match r {
        Ok(v) => Ok(v.deep_view()),
        Err(e) => Err(e.deep_view()),
    }
}

impl SchemaError {
    /// A failure at the node itself.
    pub fn new(kind: ErrorKind) -> (e: SchemaError)
        ensures
            e@ == Failure::new(kind),
    {
        let e = SchemaError { kind, path: Vec::new() };
        assert(e.path.deep_view() =~= Seq::empty());
        e
    }

    /// A failure at the value under a key of the node.
    pub fn at_key(kind: ErrorKind, key: &str) -> (e: SchemaError)
        ensures
            e@ == Failure::at_key(kind, key@),
    {
        let mut path: Vec<PathStep> = Vec::new();
        path.push(PathStep::Key(String::from_str(key)));
        let e = SchemaError { kind, path };
        assert(e.path.deep_view() =~= seq![Step::Key(key@)]);
        e
    }

    fn under(self, step: PathStep) -> (e: SchemaError)
        ensures
            e@ == self@.under(step@),
    {
        let mut path = self.path;
        let ghost before = path.deep_view();
        path.insert(0, step);
        assert(path.deep_view() =~= seq![step@] + before) by {
            assert forall|i: int| 0 <= i < path.len() implies path.deep_view()[i] == (seq![step@]
                + before)[i] by {
                if i > 0 {
                    assert(path@[i] == self.path@[i - 1]);
                }
            }
        }
        SchemaError { kind: self.kind, path }
    }

    /// The same failure, seen from the mapping that holds the node under
    /// `key`.
    pub fn under_key(self, key: &str) -> (e: SchemaError)
        ensures
            e@ == self@.under(Step::Key(key@)),
    {
        self.under(PathStep::Key(String::from_str(key)))
    }

    /// The same failure, seen from the sequence or mapping that holds the
    /// node at position `index`.
    pub fn under_index(self, index: usize) -> (e: SchemaError)
        ensures
            e@ == self@.under(Step::Index(index as int)),
    {
        self.under(PathStep::Index(index))
    }

    /// This failure in words, such as `MissingField at $.seq[1].id`.
    pub fn describe(&self) -> (text: String)
        ensures
            text@ == self@.text(),
    {
        let ghost model = self.path.deep_view();
        let ghost head = kind_name(self.kind) + " at $"@;
        let mut text = String::from_str(self.kind.name());
        text.append(" at $");
        let mut i: usize = 0;
        proof {
            assert(model.take(0) =~= Seq::empty());
            assert(text@ =~= head + path_text(model.take(0)));
        }
        while i < self.path.len()
            invariant
                i <= self.path.len(),
                model == self.path.deep_view(),
                head == kind_name(self.kind) + " at $"@,
                text@ == head + path_text(model.take(i as int)),
            decreases self.path.len() - i,
        {
            let ghost before = text@;
            proof {
                assert(model.take(i + 1).drop_last() =~= model.take(i as int));
                assert(model.take(i + 1).last() == model[i as int]);
            }
            match &self.path[i] {
                PathStep::Key(key) => {
                    text.append(".");
                    text.append(key.as_str());
                    assert(text@ =~= before + step_text(model[i as int]));
                },
                PathStep::Index(position) => {
                    let number = render_decimal(*position as i128);
                    text.append("[");
                    text.append(number.as_str());
                    text.append("]");
                    assert(text@ =~= before + step_text(model[i as int]));
                },
            }
            proof {
                assert(text@ =~= head + path_text(model.take(i + 1)));
            }
            i = i + 1;
        }
        proof {
            assert(model.take(i as int) =~= model);
        }
        text
    }
}

} // verus!
