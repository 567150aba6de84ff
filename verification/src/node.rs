//! Expression trees: what the parser builds and the evaluator reduces.

use vstd::prelude::*;
use crate::array::ArrayModel;
use crate::array::JArray;

verus! {

/// An expression tree. The parser builds `Literal` and `AmbiguousVerb`
/// nodes only; resolution replaces each `AmbiguousVerb` by a
/// `MonadicVerb` or a `DyadicVerb`.
#[derive(Debug, PartialEq)]
pub enum JNode {
    Literal(JArray),
    MonadicVerb(char, Box<JNode>),
    DyadicVerb(char, Box<JNode>, Box<JNode>),
    AmbiguousVerb(char, Option<Box<JNode>>, Option<Box<JNode>>),
}

/// The mathematical content of a [`JNode`].
pub enum NodeModel {
    Literal(ArrayModel),
    MonadicVerb(char, Box<NodeModel>),
    DyadicVerb(char, Box<NodeModel>, Box<NodeModel>),
    AmbiguousVerb(char, Option<Box<NodeModel>>, Option<Box<NodeModel>>),
}

impl JNode {
    pub open spec fn view(&self) -> NodeModel
        decreases self,
    {
        match self {
            JNode::Literal(a) => NodeModel::Literal(a@),
            JNode::MonadicVerb(v, arg) => NodeModel::MonadicVerb(*v, Box::new(arg.view())),
            JNode::DyadicVerb(v, left, right) => NodeModel::DyadicVerb(
                *v,
                Box::new(left.view()),
                Box::new(right.view()),
            ),
            JNode::AmbiguousVerb(v, left, right) => NodeModel::AmbiguousVerb(
                *v,
                match left {
                    Some(l) => Some(Box::new(l.view())),
                    None => None,
                },
                match right {
                    Some(r) => Some(Box::new(r.view())),
                    None => None,
                },
            ),
        }
    }

    /// Every literal in the tree is a well-formed array.
    pub open spec fn wf(&self) -> bool {
        self@.wf()
    }
}

impl NodeModel {
    /// Every literal in the tree holds as many elements as its shape
    /// says.
    pub open spec fn wf(self) -> bool
        decreases self,
    {
        match self {
            NodeModel::Literal(a) => a.wf(),
            NodeModel::MonadicVerb(_, arg) => arg.wf(),
            NodeModel::DyadicVerb(_, left, right) => left.wf() && right.wf(),
            NodeModel::AmbiguousVerb(_, left, right) => {
                &&& (left matches Some(l) ==> l.wf())
                &&& (right matches Some(r) ==> r.wf())
            },
        }
    }

    /// No verb in the tree is left ambiguous.
    pub open spec fn is_resolved(self) -> bool
        decreases self,
    {
        match self {
            NodeModel::Literal(_) => true,
            NodeModel::MonadicVerb(_, arg) => arg.is_resolved(),
            NodeModel::DyadicVerb(_, left, right) => left.is_resolved() && right.is_resolved(),
            NodeModel::AmbiguousVerb(_, _, _) => false,
        }
    }
}

impl Clone for JNode {
    fn clone(&self) -> (n: Self)
        ensures
            n@ == self@,
        decreases self,
    {
        match self {
            JNode::Literal(a) => JNode::Literal(a.clone()),
            JNode::MonadicVerb(v, arg) => JNode::MonadicVerb(*v, Box::new((**arg).clone())),
            JNode::DyadicVerb(v, left, right) => JNode::DyadicVerb(
                *v,
                Box::new((**left).clone()),
                Box::new((**right).clone()),
            ),
            JNode::AmbiguousVerb(v, left, right) => {
                let l = match left {
                    Some(node) => Some(Box::new((**node).clone())),
                    None => None,
                };
                let r = match right {
                    Some(node) => Some(Box::new((**node).clone())),
                    None => None,
                };
                JNode::AmbiguousVerb(*v, l, r)
            },
        }
    }
}

} // verus!
