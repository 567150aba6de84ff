//! Resolution: decides for each verb, from its place in the tree,
//! whether it is applied to one argument or to two.

use vstd::prelude::*;
use vstd::string::StringExecFns;
use vstd::std_specs::convert::FromSpecImpl;
use crate::array::ArrayError;
use crate::array::ArrayFault;
use crate::node::JNode;
use crate::node::NodeModel;

verus! {

/// Why a tree could not be resolved. The text says more to a human
/// reader.
#[derive(Debug, Clone, PartialEq)]
pub enum SemanticError {
    AmbiguousVerbContext(char, String),
    InvalidVerbUsage(char, String),
    UnresolvedAmbiguity(String),
    ArrayError(ArrayError),
}

/// The mathematical content of a [`SemanticError`].
pub enum SemanticFault {
    AmbiguousVerbContext(char, Seq<char>),
    InvalidVerbUsage(char, Seq<char>),
    UnresolvedAmbiguity(Seq<char>),
    Array(ArrayFault),
}

impl View for SemanticError {
    type V = SemanticFault;

    open spec fn view(&self) -> SemanticFault {
        match self {
            SemanticError::AmbiguousVerbContext(v, msg) => SemanticFault::AmbiguousVerbContext(
                *v,
                msg@,
            ),
            SemanticError::InvalidVerbUsage(v, msg) => SemanticFault::InvalidVerbUsage(*v, msg@),
            SemanticError::UnresolvedAmbiguity(msg) => SemanticFault::UnresolvedAmbiguity(msg@),
            SemanticError::ArrayError(e) => SemanticFault::Array(e@),
        }
    }
}

impl From<ArrayError> for SemanticError {
    fn from(err: ArrayError) -> (e: Self) {
        SemanticError::ArrayError(err)
    }
}

impl FromSpecImpl<ArrayError> for SemanticError {
    open spec fn obeys_from_spec() -> bool {
        true
    }

    open spec fn from_spec(err: ArrayError) -> Self {
        SemanticError::ArrayError(err)
    }
}

/// The verbs that take one argument.
pub open spec fn monadic_verb(verb: char) -> bool {
    verb == '+' || verb == '~' || verb == '#' || verb == ',' || verb == '<'
}

/// The verbs that take two arguments.
pub open spec fn dyadic_verb(verb: char) -> bool {
    verb == '+' || verb == '#' || verb == '{' || verb == ',' || verb == '<'
}

/// What is wrong with `verb` before one argument.
pub open spec fn not_monadic(verb: char) -> SemanticFault {
    if verb == '{' {
        SemanticFault::InvalidVerbUsage(
            verb,
            "Monadic { (catalog) not supported in this implementation"@,
        )
    } else {
        SemanticFault::InvalidVerbUsage(verb, "Unknown monadic verb"@)
    }
}

/// What is wrong with `verb` between two arguments.
pub open spec fn not_dyadic(verb: char) -> SemanticFault {
    if verb == '~' {
        SemanticFault::InvalidVerbUsage(verb, "Dyadic ~ not supported in this implementation"@)
    } else {
        SemanticFault::InvalidVerbUsage(verb, "Unknown dyadic verb"@)
    }
}

/// `node`, with `verb` applied to it, where `node` was resolved and
/// `verb` takes one argument.
pub open spec fn resolved_monadic(verb: char, arg: Result<NodeModel, SemanticFault>) -> Result<
    NodeModel,
    SemanticFault,
> {
    match arg {
        Err(f) => Err(f),
        Ok(x) => if monadic_verb(verb) {
            Ok(NodeModel::MonadicVerb(verb, Box::new(x)))
        } else {
            Err(not_monadic(verb))
        },
    }
}

/// `verb` applied to two resolved operands, where `verb` takes two
/// arguments. A failure on the left comes before one on the right, and
/// both before the verb's own.
pub open spec fn resolved_dyadic(
    verb: char,
    left: Result<NodeModel, SemanticFault>,
    right: Result<NodeModel, SemanticFault>,
) -> Result<NodeModel, SemanticFault> {
    match left {
        Err(f) => Err(f),
        Ok(x) => match right {
            Err(f) => Err(f),
            Ok(y) => if dyadic_verb(verb) {
                Ok(NodeModel::DyadicVerb(verb, Box::new(x), Box::new(y)))
            } else {
                Err(not_dyadic(verb))
            },
        },
    }
}

/// The tree with every verb's arity decided. A verb with a right
/// operand only is monadic; one with both operands, dyadic; one with a
/// left operand only, or with none, is an `InvalidVerbUsage`, and so is
/// a verb that is used in an arity it does not have. Operands are
/// resolved before the verb is judged.
pub open spec fn resolve(node: NodeModel) -> Result<NodeModel, SemanticFault>
    decreases node,
{
    match node {
        NodeModel::Literal(a) => Ok(NodeModel::Literal(a)),
        NodeModel::MonadicVerb(verb, arg) => resolved_monadic(verb, resolve(*arg)),
        NodeModel::DyadicVerb(verb, left, right) => resolved_dyadic(
            verb,
            resolve(*left),
            resolve(*right),
        ),
        NodeModel::AmbiguousVerb(verb, None, Some(right)) => resolved_monadic(
            verb,
            resolve(*right),
        ),
        NodeModel::AmbiguousVerb(verb, Some(left), Some(right)) => resolved_dyadic(
            verb,
            resolve(*left),
            resolve(*right),
        ),
        NodeModel::AmbiguousVerb(verb, Some(_), None) => Err(
            SemanticFault::InvalidVerbUsage(verb, "Verb cannot have only left operand"@),
        ),
        NodeModel::AmbiguousVerb(verb, None, None) => Err(
            SemanticFault::InvalidVerbUsage(verb, "Verb must have at least one operand"@),
        ),
    }
}

/// The mathematical content of the outcome of a resolution.
pub open spec fn resolve_outcome(r: Result<JNode, SemanticError>) -> Result<
    NodeModel,
    SemanticFault,
> {
    match r {
        Ok(n) => Ok(n@),
        Err(e) => Err(e@),
    }
}

/// A tree that was resolved holds no ambiguous verb, every verb in it
/// has the arity it is used in, and its literals are those of the tree
/// it came from.
pub proof fn lemma_resolve_resolved(node: NodeModel)
    ensures
        resolve(node) matches Ok(n) ==> n.is_resolved() && (node.wf() ==> n.wf()),
    decreases node,
{
    match node {
        NodeModel::Literal(a) => {},
        NodeModel::MonadicVerb(verb, arg) => {
            lemma_resolve_resolved(*arg);
        },
        NodeModel::DyadicVerb(verb, left, right) => {
            lemma_resolve_resolved(*left);
            lemma_resolve_resolved(*right);
        },
        NodeModel::AmbiguousVerb(verb, None, Some(right)) => {
            lemma_resolve_resolved(*right);
        },
        NodeModel::AmbiguousVerb(verb, Some(left), Some(right)) => {
            lemma_resolve_resolved(*left);
            lemma_resolve_resolved(*right);
        },
        NodeModel::AmbiguousVerb(verb, _, None) => {},
    }
}

/// The resolver.
pub struct JSemanticAnalyzer;

impl JSemanticAnalyzer {
    /// A resolver. It holds no state.
    pub fn new() -> (s: Self) {
        JSemanticAnalyzer
    }

    /// The tree with every verb's arity decided.
    pub fn analyze(&self, ast: JNode) -> (r: Result<JNode, SemanticError>)
        ensures
            resolve_outcome(r) == resolve(ast@),
            r matches Ok(n) ==> n@.is_resolved() && (ast.wf() ==> n.wf()),
    {
        self.resolve_context(ast)
    }

    fn invalid(verb: char, text: &str) -> (e: SemanticError)
        ensures
            e@ == SemanticFault::InvalidVerbUsage(verb, text@),
    {
        SemanticError::InvalidVerbUsage(verb, String::from_str(text))
    }

    fn resolve_context(&self, node: JNode) -> (r: Result<JNode, SemanticError>)
        ensures
            resolve_outcome(r) == resolve(node@),
            r matches Ok(n) ==> n@.is_resolved() && (node.wf() ==> n.wf()),
        decreases node,
    {
        proof {
            lemma_resolve_resolved(node@);
        }
        match node {
            JNode::AmbiguousVerb(verb, left, right) => {
                match (left, right) {
                    (None, Some(right)) => {
                        let resolved_right = match self.resolve_context(*right) {
                            Ok(n) => n,
                            Err(e) => {
                                return Err(e);
                            },
                        };
                        match self.validate_monadic_verb(verb) {
                            Ok(_) => {},
                            Err(e) => {
                                return Err(e);
                            },
                        }
                        Ok(JNode::MonadicVerb(verb, Box::new(resolved_right)))
                    },
                    (Some(left), Some(right)) => {
                        let resolved_left = match self.resolve_context(*left) {
                            Ok(n) => n,
                            Err(e) => {
                                return Err(e);
                            },
                        };
                        let resolved_right = match self.resolve_context(*right) {
                            Ok(n) => n,
                            Err(e) => {
                                return Err(e);
                            },
                        };
                        match self.validate_dyadic_verb(verb) {
                            Ok(_) => {},
                            Err(e) => {
                                return Err(e);
                            },
                        }
                        Ok(
                            JNode::DyadicVerb(
                                verb,
                                Box::new(resolved_left),
                                Box::new(resolved_right),
                            ),
                        )
                    },
                    (Some(_), None) => Err(
                        JSemanticAnalyzer::invalid(verb, "Verb cannot have only left operand"),
                    ),
                    (None, None) => Err(
                        JSemanticAnalyzer::invalid(verb, "Verb must have at least one operand"),
                    ),
                }
            },
            JNode::Literal(array) => Ok(JNode::Literal(array)),
            JNode::MonadicVerb(verb, arg) => {
                let resolved_arg = match self.resolve_context(*arg) {
                    Ok(n) => n,
                    Err(e) => {
                        return Err(e);
                    },
                };
                match self.validate_monadic_verb(verb) {
                    Ok(_) => {},
                    Err(e) => {
                        return Err(e);
                    },
                }
                Ok(JNode::MonadicVerb(verb, Box::new(resolved_arg)))
            },
            JNode::DyadicVerb(verb, left, right) => {
                let resolved_left = match self.resolve_context(*left) {
                    Ok(n) => n,
                    Err(e) => {
                        return Err(e);
                    },
                };
                let resolved_right = match self.resolve_context(*right) {
                    Ok(n) => n,
                    Err(e) => {
                        return Err(e);
                    },
                };
                match self.validate_dyadic_verb(verb) {
                    Ok(_) => {},
                    Err(e) => {
                        return Err(e);
                    },
                }
                Ok(JNode::DyadicVerb(verb, Box::new(resolved_left), Box::new(resolved_right)))
            },
        }
    }

    /// Whether `verb` takes one argument: `+ ~ # , <` do.
    pub fn validate_monadic_verb(&self, verb: char) -> (r: Result<(), SemanticError>)
        ensures
            r is Ok <==> monadic_verb(verb),
            r matches Err(e) ==> e@ == not_monadic(verb),
    {
        match verb {
            '+' => Ok(()),
            '~' => Ok(()),
            '#' => Ok(()),
            ',' => Ok(()),
            '<' => Ok(()),
            '{' => Err(
                JSemanticAnalyzer::invalid(
                    '{',
                    "Monadic { (catalog) not supported in this implementation",
                ),
            ),
            _ => Err(JSemanticAnalyzer::invalid(verb, "Unknown monadic verb")),
        }
    }

    /// Whether `verb` takes two arguments: `+ # { , <` do.
    pub fn validate_dyadic_verb(&self, verb: char) -> (r: Result<(), SemanticError>)
        ensures
            r is Ok <==> dyadic_verb(verb),
            r matches Err(e) ==> e@ == not_dyadic(verb),
    {
        match verb {
            '+' => Ok(()),
            '#' => Ok(()),
            '{' => Ok(()),
            ',' => Ok(()),
            '<' => Ok(()),
            '~' => Err(
                JSemanticAnalyzer::invalid('~', "Dyadic ~ not supported in this implementation"),
            ),
            _ => Err(JSemanticAnalyzer::invalid(verb, "Unknown dyadic verb")),
        }
    }
}

} // verus!
