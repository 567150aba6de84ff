//! The text of an expression tree, for diagnostics.

use vstd::prelude::*;
use vstd::string::StringExecFns;
use crate::array::ArrayModel;
use crate::array::JArray;
use crate::display::element_texts;
use crate::node::JNode;
use crate::node::NodeModel;
use crate::text::join;

verus! {

/// The indentation of a node `depth` levels below the root.
pub open spec fn indent(depth: nat) -> Seq<char> {
    Seq::new(2 * depth, |i: int| ' ')
}

/// The text of a literal in a tree: a scalar as its value, any other
/// array as its values between square brackets.
pub open spec fn literal_text(a: ArrayModel) -> Seq<char> {
    if a.rank() == 0 {
        element_texts(a)[0]
    } else {
        seq!['['] + join(element_texts(a), seq![' ']) + seq![']']
    }
}

/// The line of a verb node: the indentation, the node's kind, and the
/// verb between single quotes.
pub open spec fn verb_line(margin: Seq<char>, kind: Seq<char>, verb: char) -> Seq<char> {
    margin + kind + seq!['\'', verb, '\'']
}

/// What an ambiguous verb shows of one operand: nothing where it has
/// none, else a line that names the side and then the operand's text.
pub open spec fn side_text(operand: Option<Seq<char>>, margin: Seq<char>, side: Seq<char>) -> Seq<
    char,
> {
    match operand {
        Some(text) => seq!['\n'] + margin + side + seq!['\n'] + text,
        None => Seq::empty(),
    }
}

/// The text of the tree `node` at `depth` levels below the root: one
/// line for the node, which names its kind and its verb or literal,
/// then its operands, each one level deeper. An ambiguous verb puts a
/// line `Left:` or `Right:` before each operand it has.
pub open spec fn node_text(node: NodeModel, depth: nat) -> Seq<char>
    decreases node,
{
    match node {
        NodeModel::Literal(a) => indent(depth) + "Literal: "@ + literal_text(a),
        NodeModel::MonadicVerb(verb, arg) => verb_line(indent(depth), "MonadicVerb: "@, verb)
            + seq!['\n'] + node_text(*arg, depth + 1),
        NodeModel::DyadicVerb(verb, left, right) => verb_line(
            indent(depth),
            "DyadicVerb: "@,
            verb,
        ) + seq!['\n'] + node_text(*left, depth + 1) + seq!['\n'] + node_text(*right, depth + 1),
        NodeModel::AmbiguousVerb(verb, left, right) => verb_line(
            indent(depth),
            "AmbiguousVerb: "@,
            verb,
        ) + side_text(
            match left {
                Some(l) => Some(node_text(*l, depth + 1)),
                None => None,
            },
            indent(depth),
            "Left:"@,
        ) + side_text(
            match right {
                Some(r) => Some(node_text(*r, depth + 1)),
                None => None,
            },
            indent(depth),
            "Right:"@,
        ),
    }
}

/// Writes the line of a verb node at the end of `out`.
fn push_verb_line(out: &mut String, margin: &str, kind: &str, verb: char)
    ensures
        final(out)@ == old(out)@ + verb_line(margin@, kind@, verb),
{
    out.append(margin);
    out.append(kind);
    out.push('\'');
    out.push(verb);
    out.push('\'');
    assert(out@ =~= old(out)@ + verb_line(margin@, kind@, verb));
}

/// Writes the line that names a side of an ambiguous verb, and the
/// line end before the operand.
fn push_side_head(out: &mut String, margin: &str, side: &str)
    ensures
        final(out)@ == old(out)@ + seq!['\n'] + margin@ + side@ + seq!['\n'],
{
    out.push('\n');
    out.append(margin);
    out.append(side);
    out.push('\n');
    assert(out@ =~= old(out)@ + seq!['\n'] + margin@ + side@ + seq!['\n']);
}

/// Renders trees as text.
pub struct ParseTreeVisualizer;

impl ParseTreeVisualizer {
    /// A visualizer. It holds no state.
    pub fn new() -> (v: Self) {
        ParseTreeVisualizer
    }

    /// The text of the tree `node`.
    pub fn visualize(&self, node: &JNode) -> (text: String)
        requires
            node.wf(),
        ensures
            text@ == node_text(node@, 0),
    {
        let margin = String::new();
        assert(margin@ =~= indent(0));
        self.visualize_node(node, &margin, Ghost(0))
    }

    /// The text of `node` at `depth`, where `margin` is the
    /// indentation of that depth.
    fn visualize_node(&self, node: &JNode, margin: &String, Ghost(depth): Ghost<nat>) -> (text:
        String)
        requires
            node.wf(),
            margin@ == indent(depth),
        ensures
            text@ == node_text(node@, depth),
        decreases node,
    {
        let mut deeper = margin.clone();
        deeper.append("  ");
        proof {
            reveal_strlit("  ");
            assert(deeper@ =~= indent(depth + 1));
        }
        let mut out = String::new();
        match node {
            JNode::Literal(array) => {
                out.append(margin.as_str());
                out.append("Literal: ");
                let text = self.format_array(array);
                out.append(text.as_str());
                assert(out@ =~= indent(depth) + "Literal: "@ + literal_text(array@));
            },
            JNode::MonadicVerb(verb, arg) => {
                push_verb_line(&mut out, margin.as_str(), "MonadicVerb: ", *verb);
                out.push('\n');
                let below = self.visualize_node(arg, &deeper, Ghost(depth + 1));
                out.append(below.as_str());
                assert(out@ =~= verb_line(indent(depth), "MonadicVerb: "@, *verb) + seq!['\n']
                    + node_text(arg@, depth + 1));
            },
            JNode::DyadicVerb(verb, left, right) => {
                push_verb_line(&mut out, margin.as_str(), "DyadicVerb: ", *verb);
                out.push('\n');
                let first = self.visualize_node(left, &deeper, Ghost(depth + 1));
                out.append(first.as_str());
                out.push('\n');
                let second = self.visualize_node(right, &deeper, Ghost(depth + 1));
                out.append(second.as_str());
                assert(out@ =~= verb_line(indent(depth), "DyadicVerb: "@, *verb) + seq!['\n']
                    + node_text(left@, depth + 1) + seq!['\n'] + node_text(right@, depth + 1));
            },
            JNode::AmbiguousVerb(verb, left, right) => {
                push_verb_line(&mut out, margin.as_str(), "AmbiguousVerb: ", *verb);
                let ghost head = out@;
                assert(head =~= verb_line(indent(depth), "AmbiguousVerb: "@, *verb));
                let ghost mut left_text: Option<Seq<char>> = None;
                match left {
                    Some(l) => {
                        push_side_head(&mut out, margin.as_str(), "Left:");
                        let below = self.visualize_node(l, &deeper, Ghost(depth + 1));
                        out.append(below.as_str());
                        proof {
                            left_text = Some(below@);
                        }
                    },
                    None => {},
                }
                let ghost middle = out@;
                assert(middle =~= head + side_text(left_text, indent(depth), "Left:"@));
                let ghost mut right_text: Option<Seq<char>> = None;
                match right {
                    Some(r) => {
                        push_side_head(&mut out, margin.as_str(), "Right:");
                        let below = self.visualize_node(r, &deeper, Ghost(depth + 1));
                        out.append(below.as_str());
                        proof {
                            right_text = Some(below@);
                        }
                    },
                    None => {},
                }
                assert(out@ =~= middle + side_text(right_text, indent(depth), "Right:"@));
            },
        }
        out
    }

    /// The text of a literal in a tree.
    fn format_array(&self, array: &JArray) -> (text: String)
        requires
            array.wf(),
        ensures
            text@ == literal_text(array@),
    {
        if array.shape.rank() == 0 {
            array.to_string()
        } else {
            let flat = array.ravel();
            let inner = flat.to_string();
            let mut text = String::new();
            text.push('[');
            text.append(inner.as_str());
            text.push(']');
            assert(element_texts(flat@) =~= element_texts(array@));
            assert(text@ =~= seq!['['] + join(element_texts(array@), seq![' ']) + seq![']']);
            text
        }
    }
}

} // verus!
