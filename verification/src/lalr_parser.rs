//! A front end under the name of a table-driven parser. It holds no
//! parse tables: it hands the tokens to the layered parser of
//! [`crate::parser`], so it is no second reading of the grammar, and
//! the interpreter does not use it. It is kept for callers that ask
//! for a parser by this name.

use vstd::prelude::*;
use crate::node::JNode;
use crate::node::NodeModel;
use crate::parser::CustomParser;
use crate::parser::ParseError;
use crate::parser::ParseFault;
use crate::parser::parse;
use crate::parser::tokens_wf;
use crate::tokenizer::Token;
use crate::tokenizer::token_models;

verus! {

/// A parser that runs the layered parser and tells callers of a
/// failure only that the tokens are no expression, with the layered
/// parser's words as the message.
pub struct LalrParser;

impl LalrParser {
    /// A parser. It holds no state.
    pub fn new() -> (p: Self) {
        LalrParser
    }

    /// The tree that the layered parser gives for the whole token list
    /// `tokens`. Whatever is wrong with the tokens, the failure is an
    /// `InvalidExpression` that holds what the layered parser's error
    /// says.
    pub fn parse(&self, tokens: Vec<Token>) -> (r: Result<JNode, ParseError>)
        requires
            tokens_wf(tokens@),
        ensures
            match r {
                Ok(node) => parse(token_models(tokens@)) == Ok::<NodeModel, ParseFault>(node@)
                    && node.wf(),
                Err(e) => parse(token_models(tokens@)) matches Err(f) && e@
                    == ParseFault::InvalidExpression(f.text()),
            },
    {
        let mut layers = CustomParser::new();
        match layers.parse(tokens) {
            Ok(node) => Ok(node),
            Err(e) => Err(ParseError::InvalidExpression(e.to_string())),
        }
    }
}

} // verus!
