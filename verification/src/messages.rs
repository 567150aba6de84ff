//! The text of each error, for display.

use vstd::prelude::*;
use vstd::string::StringExecFns;
use crate::array::ArrayError;
use crate::array::ArrayFault;
use crate::evaluator::EvalFault;
use crate::evaluator::EvaluationError;
use crate::interpreter::InterpreterError;
use crate::interpreter::InterpreterFault;
use crate::parser::ParseError;
use crate::parser::ParseFault;
use crate::semantic_analyzer::SemanticError;
use crate::semantic_analyzer::SemanticFault;
use crate::shape::ArrayShape;
use crate::text::decimal_text;
use crate::text::join;
use crate::text::push_count;
use crate::tokenizer::TokenError;
use crate::tokenizer::TokenFault;

verus! {

/// The decimal numerals of `dims`.
pub open spec fn dimension_texts(dims: Seq<nat>) -> Seq<Seq<char>> {
    Seq::new(dims.len(), |i: int| decimal_text(dims[i]))
}

/// The text of a shape: its dimension sizes between square brackets,
/// with a comma and a space between each two, named as a shape.
pub open spec fn shape_text(dims: Seq<nat>) -> Seq<char> {
    "ArrayShape { dimensions: ["@ + join(dimension_texts(dims), ", "@) + "] }"@
}

impl ArrayShape {
    /// The text of this shape.
    pub fn to_string(&self) -> (out: String)
        ensures
            out@ == shape_text(self@),
    {
        let mut out = String::from_str("ArrayShape { dimensions: [");
        let ghost head = out@;
        let ghost texts = dimension_texts(self@);
        let mut i: usize = 0;
        assert(texts.take(0) =~= Seq::<Seq<char>>::empty());
        assert(head + Seq::<char>::empty() =~= head);
        while i < self.dimensions.len()
            invariant
                i <= self.dimensions.len(),
                texts == dimension_texts(self@),
                out@ == head + join(texts.take(i as int), ", "@),
            decreases self.dimensions.len() - i,
        {
            let ghost before = out@;
            proof {
                let longer = texts.take(i + 1);
                assert(longer.drop_last() =~= texts.take(i as int));
                assert(longer.last() == decimal_text(self.dimensions@[i as int] as nat));
                if i == 0 {
                    assert(longer[0] == longer.last());
                }
            }
            if i > 0 {
                out.append(", ");
            }
            push_count(&mut out, self.dimensions[i]);
            proof {
                let part = decimal_text(self.dimensions@[i as int] as nat);
                if i == 0 {
                    assert(out@ =~= head + part);
                } else {
                    assert(out@ =~= head + (join(texts.take(i as int), ", "@) + ", "@ + part));
                }
            }
            i = i + 1;
        }
        assert(texts.take(self.dimensions@.len() as int) =~= texts);
        out.append("] }");
        out
    }
}

impl ArrayFault {
    /// What this error says to a human reader.
    pub open spec fn text(self) -> Seq<char> {
        match self {
            ArrayFault::IndexOutOfBounds => "Index out of bounds"@,
            ArrayFault::ShapeMismatch { expected, actual } => "Shape mismatch: expected "@
                + shape_text(expected) + ", got "@ + shape_text(actual),
            ArrayFault::TypeMismatch { expected, actual } => "Type mismatch: expected "@ + expected
                + ", got "@ + actual,
            ArrayFault::InvalidReshape { from_shape, to_shape } => "Cannot reshape from "@
                + shape_text(from_shape) + " to "@ + shape_text(to_shape),
            ArrayFault::DivisionByZero => "Division by zero"@,
            ArrayFault::EmptyArray => "Operation on empty array"@,
            ArrayFault::InvalidDimension(dim) => "Invalid dimension: "@ + decimal_text(dim),
        }
    }
}

impl ArrayError {

    /// What this error says to a human reader.
    pub fn to_string(&self) -> (out: String)
        ensures
            out@ == self@.text(),
    {
        match self {
            ArrayError::IndexOutOfBounds => String::from_str("Index out of bounds"),
            ArrayError::ShapeMismatch { expected, actual } => {
                let mut out = String::from_str("Shape mismatch: expected ");
                out.append(expected.to_string().as_str());
                out.append(", got ");
                out.append(actual.to_string().as_str());
                out
            },
            ArrayError::TypeMismatch { expected, actual } => {
                let mut out = String::from_str("Type mismatch: expected ");
                out.append(expected.as_str());
                out.append(", got ");
                out.append(actual.as_str());
                out
            },
            ArrayError::InvalidReshape { from_shape, to_shape } => {
                let mut out = String::from_str("Cannot reshape from ");
                out.append(from_shape.to_string().as_str());
                out.append(" to ");
                out.append(to_shape.to_string().as_str());
                out
            },
            ArrayError::DivisionByZero => String::from_str("Division by zero"),
            ArrayError::EmptyArray => String::from_str("Operation on empty array"),
            ArrayError::InvalidDimension(dim) => {
                let mut out = String::from_str("Invalid dimension: ");
                push_count(&mut out, *dim);
                out
            },
        }
    }
}

impl TokenFault {
    /// What this error says to a human reader.
    pub open spec fn text(self) -> Seq<char> {
        match self {
            TokenFault::InvalidNumber(s) => "Invalid number: "@ + s,
            TokenFault::UnknownCharacter(c) => "Unknown character: "@ + seq![c],
            TokenFault::InvalidVector(s) => "Invalid vector: "@ + s,
        }
    }
}

impl TokenError {

    /// What this error says to a human reader.
    pub fn to_string(&self) -> (out: String)
        ensures
            out@ == self@.text(),
    {
        match self {
            TokenError::InvalidNumber(s) => {
                let mut out = String::from_str("Invalid number: ");
                out.append(s.as_str());
                out
            },
            TokenError::UnknownCharacter(c) => {
                let mut out = String::from_str("Unknown character: ");
                out.push(*c);
                assert(out@ =~= "Unknown character: "@ + seq![*c]);
                out
            },
            TokenError::InvalidVector(s) => {
                let mut out = String::from_str("Invalid vector: ");
                out.append(s.as_str());
                out
            },
        }
    }
}

impl ParseFault {
    /// What this error says to a human reader.
    pub open spec fn text(self) -> Seq<char> {
        match self {
            ParseFault::UnexpectedToken(token, pos) => "Unexpected token '"@ + token
                + "' at position "@ + decimal_text(pos),
            ParseFault::UnexpectedEndOfInput => "Unexpected end of input"@,
            ParseFault::InvalidExpression(msg) => "Invalid expression: "@ + msg,
        }
    }
}

impl ParseError {

    /// What this error says to a human reader.
    pub fn to_string(&self) -> (out: String)
        ensures
            out@ == self@.text(),
    {
        match self {
            ParseError::UnexpectedToken(token, pos) => {
                let mut out = String::from_str("Unexpected token '");
                out.append(token.as_str());
                out.append("' at position ");
                push_count(&mut out, *pos);
                out
            },
            ParseError::UnexpectedEndOfInput => String::from_str("Unexpected end of input"),
            ParseError::InvalidExpression(msg) => {
                let mut out = String::from_str("Invalid expression: ");
                out.append(msg.as_str());
                out
            },
        }
    }
}

/// The text `head`, the verb between single quotes, a colon and
/// `msg`.
pub open spec fn verb_message(head: Seq<char>, verb: char, msg: Seq<char>) -> Seq<char> {
    head + seq!['\'', verb, '\'', ':', ' '] + msg
}

fn verb_message_string(head: &str, verb: char, msg: &str) -> (out: String)
    ensures
        out@ == verb_message(head@, verb, msg@),
{
    let mut out = String::from_str(head);
    out.push('\'');
    out.push(verb);
    out.push('\'');
    out.push(':');
    out.push(' ');
    out.append(msg);
    assert(out@ =~= verb_message(head@, verb, msg@));
    out
}

impl SemanticFault {
    /// What this error says to a human reader.
    pub open spec fn text(self) -> Seq<char> {
        match self {
            SemanticFault::AmbiguousVerbContext(verb, msg) => verb_message(
                "Ambiguous context for verb "@,
                verb,
                msg,
            ),
            SemanticFault::InvalidVerbUsage(verb, msg) => verb_message(
                "Invalid usage of verb "@,
                verb,
                msg,
            ),
            SemanticFault::UnresolvedAmbiguity(msg) => "Unresolved ambiguity: "@ + msg,
            SemanticFault::Array(e) => "Array error: "@ + e.text(),
        }
    }
}

impl SemanticError {

    /// What this error says to a human reader.
    pub fn to_string(&self) -> (out: String)
        ensures
            out@ == self@.text(),
    {
        match self {
            SemanticError::AmbiguousVerbContext(verb, msg) => verb_message_string(
                "Ambiguous context for verb ",
                *verb,
                msg.as_str(),
            ),
            SemanticError::InvalidVerbUsage(verb, msg) => verb_message_string(
                "Invalid usage of verb ",
                *verb,
                msg.as_str(),
            ),
            SemanticError::UnresolvedAmbiguity(msg) => {
                let mut out = String::from_str("Unresolved ambiguity: ");
                out.append(msg.as_str());
                out
            },
            SemanticError::ArrayError(e) => {
                let mut out = String::from_str("Array error: ");
                out.append(e.to_string().as_str());
                out
            },
        }
    }
}

impl EvalFault {
    /// What this error says to a human reader.
    pub open spec fn text(self) -> Seq<char> {
        match self {
            EvalFault::UnsupportedVerb(verb, msg) => verb_message("Unsupported verb "@, verb, msg),
            EvalFault::DimensionMismatch(msg) => "Dimension mismatch: "@ + msg,
            EvalFault::DomainError(msg) => "Domain error: "@ + msg,
            EvalFault::RankError(msg) => "Rank error: "@ + msg,
            EvalFault::Array(e) => "Array error: "@ + e.text(),
        }
    }
}

impl EvaluationError {

    /// What this error says to a human reader.
    pub fn to_string(&self) -> (out: String)
        ensures
            out@ == self@.text(),
    {
        match self {
            EvaluationError::UnsupportedVerb(verb, msg) => verb_message_string(
                "Unsupported verb ",
                *verb,
                msg.as_str(),
            ),
            EvaluationError::DimensionMismatch(msg) => {
                let mut out = String::from_str("Dimension mismatch: ");
                out.append(msg.as_str());
                out
            },
            EvaluationError::DomainError(msg) => {
                let mut out = String::from_str("Domain error: ");
                out.append(msg.as_str());
                out
            },
            EvaluationError::RankError(msg) => {
                let mut out = String::from_str("Rank error: ");
                out.append(msg.as_str());
                out
            },
            EvaluationError::ArrayError(e) => {
                let mut out = String::from_str("Array error: ");
                out.append(e.to_string().as_str());
                out
            },
        }
    }
}

impl InterpreterFault {
    /// What the stage's own error says to a human reader.
    pub open spec fn said(self) -> Seq<char> {
        match self {
            InterpreterFault::Token(e) => e.text(),
            InterpreterFault::Parse(e) => e.text(),
            InterpreterFault::Semantic(e) => e.text(),
            InterpreterFault::Evaluation(e) => e.text(),
        }
    }

    /// What this error says to a human reader: the stage, then the
    /// stage's own text.
    pub open spec fn text(self) -> Seq<char> {
        match self {
            InterpreterFault::Token(e) => "Token error: "@ + e.text(),
            InterpreterFault::Parse(e) => "Parse error: "@ + e.text(),
            InterpreterFault::Semantic(e) => "Semantic error: "@ + e.text(),
            InterpreterFault::Evaluation(e) => "Evaluation error: "@ + e.text(),
        }
    }
}

impl InterpreterError {

    /// What this error says to a human reader.
    pub fn to_string(&self) -> (out: String)
        ensures
            out@ == self@.text(),
    {
        match self {
            InterpreterError::TokenError(e) => {
                let mut out = String::from_str("Token error: ");
                out.append(e.to_string().as_str());
                out
            },
            InterpreterError::ParseError(e) => {
                let mut out = String::from_str("Parse error: ");
                out.append(e.to_string().as_str());
                out
            },
            InterpreterError::SemanticError(e) => {
                let mut out = String::from_str("Semantic error: ");
                out.append(e.to_string().as_str());
                out
            },
            InterpreterError::EvaluationError(e) => {
                let mut out = String::from_str("Evaluation error: ");
                out.append(e.to_string().as_str());
                out
            },
        }
    }
}

} // verus!
