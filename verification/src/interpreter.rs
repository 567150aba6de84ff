//! The interpreter: text in, an array or one error out.

use vstd::prelude::*;
use vstd::string::StringExecFns;
use vstd::std_specs::convert::FromSpecImpl;
use crate::array::ArrayModel;
use crate::array::JArray;
use crate::evaluator::EvalFault;
use crate::evaluator::EvaluationError;
use crate::evaluator::JEvaluator;
use crate::evaluator::eval;
use crate::node::NodeModel;
use crate::parser::JParser;
use crate::parser::ParseError;
use crate::parser::ParseFault;
use crate::parser::parse;
use crate::semantic_analyzer::JSemanticAnalyzer;
use crate::semantic_analyzer::SemanticError;
use crate::semantic_analyzer::SemanticFault;
use crate::semantic_analyzer::resolve;
use crate::tokenizer::JTokenizer;
use crate::tokenizer::TokenError;
use crate::tokenizer::TokenFault;
use crate::tokenizer::tokenize;
use crate::visualizer::ParseTreeVisualizer;
use crate::visualizer::node_text;

verus! {

/// What can go wrong with an expression, by the stage that found it.
#[derive(Debug, Clone, PartialEq)]
pub enum InterpreterError {
    TokenError(TokenError),
    ParseError(ParseError),
    SemanticError(SemanticError),
    EvaluationError(EvaluationError),
}

/// The mathematical content of an [`InterpreterError`].
pub enum InterpreterFault {
    Token(TokenFault),
    Parse(ParseFault),
    Semantic(SemanticFault),
    Evaluation(EvalFault),
}

impl View for InterpreterError {
    type V = InterpreterFault;

    open spec fn view(&self) -> InterpreterFault {
        match self {
            InterpreterError::TokenError(e) => InterpreterFault::Token(e@),
            InterpreterError::ParseError(e) => InterpreterFault::Parse(e@),
            InterpreterError::SemanticError(e) => InterpreterFault::Semantic(e@),
            InterpreterError::EvaluationError(e) => InterpreterFault::Evaluation(e@),
        }
    }
}

impl From<TokenError> for InterpreterError {
    fn from(error: TokenError) -> (e: Self) {
        InterpreterError::TokenError(error)
    }
}

impl FromSpecImpl<TokenError> for InterpreterError {
    open spec fn obeys_from_spec() -> bool {
        true
    }

    open spec fn from_spec(error: TokenError) -> Self {
        InterpreterError::TokenError(error)
    }
}

impl From<ParseError> for InterpreterError {
    fn from(error: ParseError) -> (e: Self) {
        InterpreterError::ParseError(error)
    }
}

impl FromSpecImpl<ParseError> for InterpreterError {
    open spec fn obeys_from_spec() -> bool {
        true
    }

    open spec fn from_spec(error: ParseError) -> Self {
        InterpreterError::ParseError(error)
    }
}

impl From<SemanticError> for InterpreterError {
    fn from(error: SemanticError) -> (e: Self) {
        InterpreterError::SemanticError(error)
    }
}

impl FromSpecImpl<SemanticError> for InterpreterError {
    open spec fn obeys_from_spec() -> bool {
        true
    }

    open spec fn from_spec(error: SemanticError) -> Self {
        InterpreterError::SemanticError(error)
    }
}

impl From<EvaluationError> for InterpreterError {
    fn from(error: EvaluationError) -> (e: Self) {
        InterpreterError::EvaluationError(error)
    }
}

impl FromSpecImpl<EvaluationError> for InterpreterError {
    open spec fn obeys_from_spec() -> bool {
        true
    }

    open spec fn from_spec(error: EvaluationError) -> Self {
        InterpreterError::EvaluationError(error)
    }
}

/// The tree that the text `text` is read as, before its verbs'
/// arities are decided.
pub open spec fn read(text: Seq<char>) -> Result<NodeModel, InterpreterFault> {
    match tokenize(text) {
        Err(f) => Err(InterpreterFault::Token(f)),
        Ok(tokens) => match parse(tokens) {
            Err(f) => Err(InterpreterFault::Parse(f)),
            Ok(tree) => Ok(tree),
        },
    }
}

/// The value of the tree `tree`: its verbs' arities are decided, then
/// it is evaluated.
pub open spec fn value_of(tree: NodeModel) -> Result<ArrayModel, InterpreterFault> {
    match resolve(tree) {
        Err(f) => Err(InterpreterFault::Semantic(f)),
        Ok(resolved) => match eval(resolved) {
            Err(f) => Err(InterpreterFault::Evaluation(f)),
            Ok(a) => Ok(a),
        },
    }
}

/// The value of the expression that `text` writes: the text is split
/// into tokens, the tokens are parsed, the tree is resolved and then
/// evaluated. The first stage that fails gives the outcome.
pub open spec fn interpret(text: Seq<char>) -> Result<ArrayModel, InterpreterFault> {
    match read(text) {
        Err(f) => Err(f),
        Ok(tree) => value_of(tree),
    }
}

/// The mathematical content of the outcome of an interpretation.
pub open spec fn interpret_outcome(r: Result<JArray, InterpreterError>) -> Result<
    ArrayModel,
    InterpreterFault,
> {
    match r {
        Ok(a) => Ok(a@),
        Err(e) => Err(e@),
    }
}

/// The heading of the tree text in a debug run.
pub open spec fn tree_heading() -> Seq<char> {
    "Parse Tree:\n"@
}

/// The interpreter: the four stages in a row.
pub struct JInterpreter {
    tokenizer: JTokenizer,
    parser: JParser,
    semantic_analyzer: JSemanticAnalyzer,
    evaluator: JEvaluator,
    visualizer: ParseTreeVisualizer,
}

impl JInterpreter {
    /// An interpreter. It holds no state between calls.
    pub fn new() -> (i: Self) {
        JInterpreter {
            tokenizer: JTokenizer::new(),
            parser: JParser::new(),
            semantic_analyzer: JSemanticAnalyzer::new(),
            evaluator: JEvaluator::new(),
            visualizer: ParseTreeVisualizer::new(),
        }
    }

    /// The value of the expression that `input` writes.
    pub fn execute(&self, input: &str) -> (r: Result<JArray, InterpreterError>)
        ensures
            interpret_outcome(r) == interpret(input@),
            r matches Ok(a) ==> a.wf(),
    {
        match self.execute_with_debug(input) {
            Ok((result, _)) => Ok(result),
            Err(e) => Err(e),
        }
    }

    /// The value of the expression that `input` writes, and the text
    /// of its tree as it was parsed, under a heading.
    pub fn execute_with_debug(&self, input: &str) -> (r: Result<(JArray, String), InterpreterError>)
        ensures
            match r {
                Ok((a, tree_text)) => interpret(input@) == Ok::<ArrayModel, InterpreterFault>(a@)
                    && a.wf() && read(input@) is Ok && tree_text@ == tree_heading() + node_text(
                    read(input@)->Ok_0,
                    0,
                ),
                Err(e) => interpret(input@) == Err::<ArrayModel, InterpreterFault>(e@),
            },
    {
        let tokens = match self.tokenizer.tokenize(input) {
            Ok(tokens) => tokens,
            Err(e) => {
                return Err(InterpreterError::TokenError(e));
            },
        };
        let ast = match self.parser.parse(tokens) {
            Ok(ast) => ast,
            Err(e) => {
                return Err(InterpreterError::ParseError(e));
            },
        };
        let mut parse_tree_text = String::from_str("Parse Tree:\n");
        let tree = self.visualizer.visualize(&ast);
        parse_tree_text.append(tree.as_str());
        let resolved_ast = match self.semantic_analyzer.analyze(ast) {
            Ok(resolved) => resolved,
            Err(e) => {
                return Err(InterpreterError::SemanticError(e));
            },
        };
        let result = match self.evaluator.evaluate(&resolved_ast) {
            Ok(result) => result,
            Err(e) => {
                return Err(InterpreterError::EvaluationError(e));
            },
        };
        Ok((result, parse_tree_text))
    }
}

} // verus!
