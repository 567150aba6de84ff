//! The parser: tokens to an expression tree whose verbs are still
//! ambiguous in arity.
//!
//! The grammar has four layers, from the tightest binding to the
//! loosest: a primary (a literal or a parenthesized expression); a
//! prefix verb on one primary; a left-associative chain of array verbs;
//! a left-associative chain of `+`.

use vstd::prelude::*;
use vstd::string::StringExecFns;
use crate::display::array_text;
use crate::node::JNode;
use crate::node::NodeModel;
use crate::tokenizer::Token;
use crate::tokenizer::TokenModel;
use crate::tokenizer::token_models;

verus! {

/// Why a token list is no expression. `UnexpectedToken` holds the text
/// of the token and its position in the list.
#[derive(Debug, Clone, PartialEq)]
pub enum ParseError {
    UnexpectedToken(String, usize),
    UnexpectedEndOfInput,
    InvalidExpression(String),
}

/// The mathematical content of a [`ParseError`].
pub enum ParseFault {
    UnexpectedToken(Seq<char>, nat),
    UnexpectedEndOfInput,
    InvalidExpression(Seq<char>),
}

impl View for ParseError {
    type V = ParseFault;

    open spec fn view(&self) -> ParseFault {
        match self {
            ParseError::UnexpectedToken(token, pos) => ParseFault::UnexpectedToken(
                token@,
                *pos as nat,
            ),
            ParseError::UnexpectedEndOfInput => ParseFault::UnexpectedEndOfInput,
            ParseError::InvalidExpression(msg) => ParseFault::InvalidExpression(msg@),
        }
    }
}

/// A tree, and the number of tokens that it was read from.
pub struct Parsed {
    pub node: NodeModel,
    pub used: nat,
}

/// The outcome of parsing part of a token list.
pub type Parse = Result<Parsed, ParseFault>;

/// The verbs that bind tighter than `+`: as a prefix of one primary,
/// and between two operands.
pub open spec fn array_verb(c: char) -> bool {
    c == '#' || c == '{' || c == ',' || c == '<' || c == '~' || c == '-'
}

/// The number of tokens from `pos` on.
pub open spec fn remaining(tokens: Seq<TokenModel>, pos: int) -> nat {
    if pos < tokens.len() {
        (tokens.len() - pos) as nat
    } else {
        0
    }
}

/// `p`, read from `by` more tokens.
pub open spec fn longer(p: Parse, by: nat) -> Parse {
    match p {
        Ok(parsed) => Ok(Parsed { node: parsed.node, used: parsed.used + by }),
        Err(f) => Err(f),
    }
}

/// A verb between two operands.
pub open spec fn between(verb: char, left: NodeModel, right: NodeModel) -> NodeModel {
    NodeModel::AmbiguousVerb(verb, Some(Box::new(left)), Some(Box::new(right)))
}

/// A verb before its one operand.
pub open spec fn before(verb: char, right: NodeModel) -> NodeModel {
    NodeModel::AmbiguousVerb(verb, None, Some(Box::new(right)))
}

/// The text of a token, for messages: a verb or a parenthesis as its
/// character, a literal as the text of its array.
pub open spec fn token_text(token: TokenModel) -> Seq<char> {
    match token {
        TokenModel::Vector(a) => array_text(a),
        TokenModel::Verb(c) => seq![c],
        TokenModel::LeftParen => seq!['('],
        TokenModel::RightParen => seq![')'],
    }
}

/// What is wrong with a token at `pos` that cannot stand there.
pub open spec fn unexpected_at(tokens: Seq<TokenModel>, pos: int) -> ParseFault {
    ParseFault::UnexpectedToken(token_text(tokens[pos]), pos as nat)
}

/// A primary at `pos`: a literal, or an expression in parentheses.
/// The end of the list is `UnexpectedEndOfInput`; a missing `)` is
/// `InvalidExpression`; any other token is `UnexpectedToken`.
pub open spec fn parse_primary(tokens: Seq<TokenModel>, pos: int) -> Parse
    decreases remaining(tokens, pos), 0int,
{
    if !(0 <= pos < tokens.len()) {
        Err(ParseFault::UnexpectedEndOfInput)
    } else {
        match tokens[pos] {
            TokenModel::Vector(a) => Ok(Parsed { node: NodeModel::Literal(a), used: 1 }),
            TokenModel::LeftParen => match parse_expression(tokens, pos + 1) {
                Err(f) => Err(f),
                Ok(inner) => {
                    let close = pos + 1 + inner.used;
                    if close >= tokens.len() {
                        Err(ParseFault::InvalidExpression("Error: Missing closing parenthesis"@))
                    } else if tokens[close] is RightParen {
                        Ok(Parsed { node: inner.node, used: inner.used + 2 })
                    } else {
                        Err(ParseFault::InvalidExpression("Error: Expected closing parenthesis"@))
                    }
                },
            },
            _ => Err(unexpected_at(tokens, pos)),
        }
    }
}

/// A primary at `pos`, or an array verb and the primary after it.
pub open spec fn parse_monadic(tokens: Seq<TokenModel>, pos: int) -> Parse
    decreases remaining(tokens, pos), 1int,
{
    if 0 <= pos < tokens.len() && tokens[pos] is Verb && array_verb(tokens[pos]->Verb_0) {
        match parse_primary(tokens, pos + 1) {
            Err(f) => Err(f),
            Ok(operand) => Ok(
                Parsed { node: before(tokens[pos]->Verb_0, operand.node), used: operand.used + 1 },
            ),
        }
    } else {
        parse_primary(tokens, pos)
    }
}

/// What follows the operand `left` in a chain of array verbs: as long
/// as an array verb stands at `pos`, the term after it becomes the
/// right operand, and the two together the next left operand.
pub open spec fn operators_rest(tokens: Seq<TokenModel>, left: NodeModel, pos: int) -> Parse
    decreases remaining(tokens, pos), 2int,
{
    if 0 <= pos < tokens.len() && tokens[pos] is Verb && array_verb(tokens[pos]->Verb_0) {
        match parse_monadic(tokens, pos + 1) {
            Err(f) => Err(f),
            Ok(right) => longer(
                operators_rest(
                    tokens,
                    between(tokens[pos]->Verb_0, left, right.node),
                    pos + 1 + right.used,
                ),
                1 + right.used,
            ),
        }
    } else {
        Ok(Parsed { node: left, used: 0 })
    }
}

/// A left-associative chain of array verbs at `pos`.
pub open spec fn parse_j_operators(tokens: Seq<TokenModel>, pos: int) -> Parse
    decreases remaining(tokens, pos), 3int,
{
    match parse_monadic(tokens, pos) {
        Err(f) => Err(f),
        Ok(first) => longer(operators_rest(tokens, first.node, pos + first.used), first.used),
    }
}

/// What follows the operand `left` in a chain of `+`. Another verb at
/// `pos` is an `UnexpectedToken`.
pub open spec fn expression_rest(tokens: Seq<TokenModel>, left: NodeModel, pos: int) -> Parse
    decreases remaining(tokens, pos), 4int,
{
    if 0 <= pos < tokens.len() && tokens[pos] is Verb {
        if tokens[pos]->Verb_0 == '+' {
            match parse_j_operators(tokens, pos + 1) {
                Err(f) => Err(f),
                Ok(right) => longer(
                    expression_rest(tokens, between('+', left, right.node), pos + 1 + right.used),
                    1 + right.used,
                ),
            }
        } else {
            Err(unexpected_at(tokens, pos))
        }
    } else {
        Ok(Parsed { node: left, used: 0 })
    }
}

/// A left-associative chain of `+` at `pos`: the loosest layer.
pub open spec fn parse_expression(tokens: Seq<TokenModel>, pos: int) -> Parse
    decreases remaining(tokens, pos), 5int,
{
    match parse_j_operators(tokens, pos) {
        Err(f) => Err(f),
        Ok(first) => longer(expression_rest(tokens, first.node, pos + first.used), first.used),
    }
}

/// The tree of a whole token list. An empty list is an
/// `InvalidExpression`; tokens left over after an expression are an
/// `UnexpectedToken` at the first of them.
pub open spec fn parse(tokens: Seq<TokenModel>) -> Result<NodeModel, ParseFault> {
    if tokens.len() == 0 {
        Err(ParseFault::InvalidExpression("Empty expression"@))
    } else {
        match parse_expression(tokens, 0) {
            Err(f) => Err(f),
            Ok(parsed) => if parsed.used < tokens.len() {
                Err(unexpected_at(tokens, parsed.used as int))
            } else {
                Ok(parsed.node)
            },
        }
    }
}

/// How many tokens of a list are read in parsing it: those of the
/// expression at its start, none where no expression stands there.
pub open spec fn tokens_read(tokens: Seq<TokenModel>) -> nat {
    if tokens.len() == 0 {
        0
    } else {
        match parse_expression(tokens, 0) {
            Ok(parsed) => parsed.used,
            Err(_) => 0,
        }
    }
}

/// Every literal among the tokens is a well-formed array.
pub open spec fn tokens_wf(tokens: Seq<Token>) -> bool {
    forall|i: int| 0 <= i < tokens.len() ==> (#[trigger] tokens[i] matches Token::Vector(a) ==> a.wf())
}

/// The mathematical content of the outcome of one parsing step that
/// started at `pos` and gave a tree and the position after it.
pub open spec fn step_outcome(r: Result<(JNode, usize), ParseError>, pos: usize) -> Parse {
    match r {
        Ok((node, next)) => Ok(Parsed { node: node@, used: (next - pos) as nat }),
        Err(e) => Err(e@),
    }
}

/// What a parsing step owes besides its outcome: it ends within the
/// list, not before its start, and its tree's literals are well formed.
pub open spec fn step_sound(
    r: Result<(JNode, usize), ParseError>,
    pos: usize,
    tokens: Seq<Token>,
) -> bool {
    r matches Ok((node, next)) ==> pos <= next <= tokens.len() && node.wf()
}

/// The mathematical content of the outcome of parsing a token list.
pub open spec fn parse_outcome(r: Result<JNode, ParseError>) -> Result<NodeModel, ParseFault> {
    match r {
        Ok(node) => Ok(node@),
        Err(e) => Err(e@),
    }
}

/// Reading from more tokens twice is reading from their sum more.
pub proof fn lemma_longer_twice(p: Parse, a: nat, b: nat)
    ensures
        longer(longer(p, a), b) == longer(p, a + b),
{
}

/// The text of a token, for messages.
fn token_string(token: &Token) -> (text: String)
    requires
        token matches Token::Vector(a) ==> a.wf(),
    ensures
        text@ == token_text(token@),
{
    match token {
        Token::Vector(a) => a.to_string(),
        Token::Verb(c) => {
            let mut text = String::new();
            text.push(*c);
            assert(text@ =~= seq![*c]);
            text
        },
        Token::LeftParen => {
            let mut text = String::new();
            text.push('(');
            assert(text@ =~= seq!['(']);
            text
        },
        Token::RightParen => {
            let mut text = String::new();
            text.push(')');
            assert(text@ =~= seq![')']);
            text
        },
    }
}

fn unexpected(tokens: &Vec<Token>, pos: usize) -> (e: ParseError)
    requires
        pos < tokens@.len(),
        tokens_wf(tokens@),
    ensures
        e@ == unexpected_at(token_models(tokens@), pos as int),
{
    ParseError::UnexpectedToken(token_string(&tokens[pos]), pos)
}

/// Whether an array verb stands at `pos`, and which.
fn array_verb_at(tokens: &Vec<Token>, pos: usize) -> (r: Option<char>)
    ensures
        match r {
            Some(c) => pos < tokens@.len() <= usize::MAX && tokens@[pos as int]@
                == TokenModel::Verb(c) && array_verb(c),
            None => !(pos < tokens@.len() && token_models(tokens@)[pos as int] is Verb
                && array_verb(token_models(tokens@)[pos as int]->Verb_0)),
        },
{
    if pos < tokens.len() {
        match &tokens[pos] {
            Token::Verb(c) => {
                if *c == '#' || *c == '{' || *c == ',' || *c == '<' || *c == '~' || *c == '-' {
                    Some(*c)
                } else {
                    None
                }
            },
            _ => None,
        }
    } else {
        None
    }
}

/// The layered parser.
pub struct CustomParser {
    tokens: Vec<Token>,
    position: usize,
}

impl CustomParser {
    /// The tokens that the parser holds: those it was last given.
    pub closed spec fn held(&self) -> Seq<TokenModel> {
        token_models(self.tokens@)
    }

    /// How many of the tokens it holds the parser has read.
    pub closed spec fn position(&self) -> nat {
        self.position as nat
    }

    /// A parser with no tokens yet: it holds none and has read none.
    pub fn new() -> (p: Self)
        ensures
            p.held() == Seq::<TokenModel>::empty(),
            p.position() == 0,
    {
        let p = CustomParser { tokens: Vec::new(), position: 0 };
        assert(p.held() =~= Seq::<TokenModel>::empty());
        p
    }

    /// The tree of the whole token list `tokens`. The parser then
    /// holds these tokens, and has read those of the expression at
    /// their start.
    pub fn parse(&mut self, tokens: Vec<Token>) -> (r: Result<JNode, ParseError>)
        requires
            tokens_wf(tokens@),
        ensures
            parse_outcome(r) == parse(token_models(tokens@)),
            r matches Ok(node) ==> node.wf(),
            final(self).held() == token_models(tokens@),
            final(self).position() == tokens_read(token_models(tokens@)),
    {
        self.tokens = tokens;
        self.position = 0;
        if self.tokens.len() == 0 {
            return Err(ParseError::InvalidExpression(String::from_str("Empty expression")));
        }
        match CustomParser::parse_expression(&self.tokens, 0) {
            Err(e) => Err(e),
            Ok((node, next)) => {
                self.position = next;
                if next < self.tokens.len() {
                    Err(unexpected(&self.tokens, next))
                } else {
                    Ok(node)
                }
            },
        }
    }

    fn parse_expression(tokens: &Vec<Token>, pos: usize) -> (r: Result<(JNode, usize), ParseError>)
        requires
            pos <= tokens@.len(),
            tokens_wf(tokens@),
        ensures
            step_outcome(r, pos) == parse_expression(token_models(tokens@), pos as int),
            step_sound(r, pos, tokens@),
        decreases tokens@.len() - pos, 5int,
    {
        let ghost ts = token_models(tokens@);
        let (first, start) = match CustomParser::parse_j_operators(tokens, pos) {
            Ok(step) => step,
            Err(e) => {
                return Err(e);
            },
        };
        let ghost first_node = first@;
        let mut left = first;
        let mut cur = start;
        loop
            invariant
                ts == token_models(tokens@),
                tokens_wf(tokens@),
                pos <= start <= cur <= tokens@.len(),
                left.wf(),
                expression_rest(ts, first_node, start as int) == longer(
                    expression_rest(ts, left@, cur as int),
                    (cur - start) as nat,
                ),
                parse_expression(ts, pos as int) == longer(
                    expression_rest(ts, first_node, start as int),
                    (start - pos) as nat,
                ),
            decreases tokens@.len() - cur,
        {
            if cur >= tokens.len() {
                return Ok((left, cur));
            }
            match &tokens[cur] {
                Token::Verb(c) => {
                    if *c != '+' {
                        return Err(unexpected(tokens, cur));
                    }
                    let (right, next) = match CustomParser::parse_j_operators(tokens, cur + 1) {
                        Ok(step) => step,
                        Err(e) => {
                            return Err(e);
                        },
                    };
                    proof {
                        lemma_longer_twice(
                            expression_rest(ts, between('+', left@, right@), next as int),
                            (next - cur) as nat,
                            (cur - start) as nat,
                        );
                    }
                    left = JNode::AmbiguousVerb('+', Some(Box::new(left)), Some(Box::new(right)));
                    cur = next;
                },
                _ => {
                    return Ok((left, cur));
                },
            }
        }
    }

    fn parse_j_operators(tokens: &Vec<Token>, pos: usize) -> (r: Result<(JNode, usize), ParseError>)
        requires
            pos <= tokens@.len(),
            tokens_wf(tokens@),
        ensures
            step_outcome(r, pos) == parse_j_operators(token_models(tokens@), pos as int),
            step_sound(r, pos, tokens@),
        decreases tokens@.len() - pos, 3int,
    {
        let ghost ts = token_models(tokens@);
        let (first, start) = match CustomParser::parse_monadic(tokens, pos) {
            Ok(step) => step,
            Err(e) => {
                return Err(e);
            },
        };
        let ghost first_node = first@;
        let mut left = first;
        let mut cur = start;
        loop
            invariant
                ts == token_models(tokens@),
                tokens_wf(tokens@),
                pos <= start <= cur <= tokens@.len(),
                left.wf(),
                operators_rest(ts, first_node, start as int) == longer(
                    operators_rest(ts, left@, cur as int),
                    (cur - start) as nat,
                ),
                parse_j_operators(ts, pos as int) == longer(
                    operators_rest(ts, first_node, start as int),
                    (start - pos) as nat,
                ),
            decreases tokens@.len() - cur,
        {
            let verb = match array_verb_at(tokens, cur) {
                Some(c) => c,
                None => {
                    return Ok((left, cur));
                },
            };
            let (right, next) = match CustomParser::parse_monadic(tokens, cur + 1) {
                Ok(step) => step,
                Err(e) => {
                    return Err(e);
                },
            };
            proof {
                lemma_longer_twice(
                    operators_rest(ts, between(verb, left@, right@), next as int),
                    (next - cur) as nat,
                    (cur - start) as nat,
                );
            }
            left = JNode::AmbiguousVerb(verb, Some(Box::new(left)), Some(Box::new(right)));
            cur = next;
        }
    }

    fn parse_monadic(tokens: &Vec<Token>, pos: usize) -> (r: Result<(JNode, usize), ParseError>)
        requires
            pos <= tokens@.len(),
            tokens_wf(tokens@),
        ensures
            step_outcome(r, pos) == parse_monadic(token_models(tokens@), pos as int),
            step_sound(r, pos, tokens@),
        decreases tokens@.len() - pos, 1int,
    {
        match array_verb_at(tokens, pos) {
            Some(verb) => {
                match CustomParser::parse_primary(tokens, pos + 1) {
                    Ok((operand, next)) => Ok(
                        (JNode::AmbiguousVerb(verb, None, Some(Box::new(operand))), next),
                    ),
                    Err(e) => Err(e),
                }
            },
            None => CustomParser::parse_primary(tokens, pos),
        }
    }

    fn parse_primary(tokens: &Vec<Token>, pos: usize) -> (r: Result<(JNode, usize), ParseError>)
        requires
            pos <= tokens@.len(),
            tokens_wf(tokens@),
        ensures
            step_outcome(r, pos) == parse_primary(token_models(tokens@), pos as int),
            step_sound(r, pos, tokens@),
        decreases tokens@.len() - pos, 0int,
    {
        if pos >= tokens.len() {
            return Err(ParseError::UnexpectedEndOfInput);
        }
        match &tokens[pos] {
            Token::LeftParen => {
                let (inner, close) = match CustomParser::parse_expression(tokens, pos + 1) {
                    Ok(step) => step,
                    Err(e) => {
                        return Err(e);
                    },
                };
                if close >= tokens.len() {
                    return Err(
                        ParseError::InvalidExpression(
                            String::from_str("Error: Missing closing parenthesis"),
                        ),
                    );
                }
                match &tokens[close] {
                    Token::RightParen => Ok((inner, close + 1)),
                    _ => Err(
                        ParseError::InvalidExpression(
                            String::from_str("Error: Expected closing parenthesis"),
                        ),
                    ),
                }
            },
            Token::Vector(array) => Ok((JNode::Literal(array.clone()), pos + 1)),
            _ => Err(unexpected(tokens, pos)),
        }
    }
}

/// The parser.
pub struct JParser;

impl JParser {
    /// A parser. It holds no state.
    pub fn new() -> (p: Self) {
        JParser
    }

    /// The tree of the whole token list `tokens`, verbs still
    /// ambiguous in arity.
    pub fn parse(&self, tokens: Vec<Token>) -> (r: Result<JNode, ParseError>)
        requires
            tokens_wf(tokens@),
        ensures
            parse_outcome(r) == parse(token_models(tokens@)),
            r matches Ok(node) ==> node.wf(),
    {
        let mut layers = CustomParser::new();
        layers.parse(tokens)
    }
}

} // verus!
