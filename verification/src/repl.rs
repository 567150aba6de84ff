//! The text front end: an expression in, the text of its value out.

use vstd::prelude::*;
use vstd::string::StringExecFns;
use crate::array::JArray;
use crate::display::array_text;
use crate::evaluator::EvalFault;
use crate::evaluator::EvaluationError;
use crate::interpreter::InterpreterError;
use crate::interpreter::InterpreterFault;
use crate::interpreter::JInterpreter;
use crate::interpreter::interpret;
use crate::text::chars_of;
use crate::text::skip_whitespace;
use crate::text::skip_whitespace_back;
use crate::text::trimmed;

verus! {

/// What the front end reports, with a text for a human reader.
#[derive(Debug, Clone, PartialEq)]
pub enum JError {
    ParseError(String),
    ExecutionError(String),
    InvalidArgument(String),
}

/// The kinds of [`JError`].
pub enum JErrorKind {
    Parse,
    Execution,
    InvalidArgument,
}

impl JError {
    /// The text that the error holds.
    pub open spec fn message(&self) -> Seq<char> {
        match self {
            JError::ParseError(msg) => msg@,
            JError::ExecutionError(msg) => msg@,
            JError::InvalidArgument(msg) => msg@,
        }
    }

    pub open spec fn kind(&self) -> JErrorKind {
        match self {
            JError::ParseError(_) => JErrorKind::Parse,
            JError::ExecutionError(_) => JErrorKind::Execution,
            JError::InvalidArgument(_) => JErrorKind::InvalidArgument,
        }
    }

    /// What this error says to a human reader.
    pub open spec fn text(&self) -> Seq<char> {
        match self {
            JError::ParseError(msg) => "Parse error: "@ + msg@,
            JError::ExecutionError(msg) => "Execution error: "@ + msg@,
            JError::InvalidArgument(msg) => "Invalid argument: "@ + msg@,
        }
    }

    /// What this error says to a human reader.
    pub fn to_string(&self) -> (out: String)
        ensures
            out@ == self.text(),
    {
        match self {
            JError::ParseError(msg) => {
                let mut out = String::from_str("Parse error: ");
                out.append(msg.as_str());
                out
            },
            JError::ExecutionError(msg) => {
                let mut out = String::from_str("Execution error: ");
                out.append(msg.as_str());
                out
            },
            JError::InvalidArgument(msg) => {
                let mut out = String::from_str("Invalid argument: ");
                out.append(msg.as_str());
                out
            },
        }
    }
}

/// The kind under which the front end reports a failure: what the
/// text is not an expression for is a parse error; a verb that cannot
/// be applied is an execution error; arguments that a verb rejects are
/// invalid arguments.
pub open spec fn reported_kind(fault: InterpreterFault) -> JErrorKind {
    match fault {
        InterpreterFault::Token(_) => JErrorKind::Parse,
        InterpreterFault::Parse(_) => JErrorKind::Parse,
        InterpreterFault::Semantic(_) => JErrorKind::Parse,
        InterpreterFault::Evaluation(EvalFault::UnsupportedVerb(_, _)) => JErrorKind::Execution,
        InterpreterFault::Evaluation(_) => JErrorKind::InvalidArgument,
    }
}

/// Whether the text is the word `help`, with nothing but white space
/// around it.
pub open spec fn asks_help(s: Seq<char>) -> bool {
    trimmed(s) == seq!['h', 'e', 'l', 'p']
}

fn is_help(expression: &str) -> (b: bool)
    ensures
        b == asks_help(expression@),
{
    let chars = chars_of(expression);
    let n = chars.len();
    let start = skip_whitespace(&chars, 0);
    let stop = skip_whitespace_back(&chars, start, n);
    let ghost word = trimmed(chars@);
    assert(word.len() == stop - start);
    if stop - start != 4 {
        return false;
    }
    assert(word[0] == chars@[start as int]);
    assert(word[1] == chars@[start + 1]);
    assert(word[2] == chars@[start + 2]);
    assert(word[3] == chars@[start + 3]);
    let b = chars[start] == 'h' && chars[start + 1] == 'e' && chars[start + 2] == 'l' && chars[start
        + 3] == 'p';
    assert(b ==> word =~= seq!['h', 'e', 'l', 'p']);
    b
}

/// The help text.
pub open spec fn help_text() -> Seq<char> {
    "\nArray Language REPL - Help\n==========================\n\nAn expression combines numeric arrays with one-character verbs.\nA verb before its argument is monadic; a verb between two arguments is dyadic.\n\nMonadic verbs (prefix form):\n~  Iota       the integers from 0 up to n-1        ~5        ->  0 1 2 3 4\n#  Tally      the size of the first dimension      #1 2 3    ->  3\n,  Ravel      the elements as a vector             ,(2 2#1 2 3 4)  ->  1 2 3 4\n<  Box        the array as one boxed value         <1 2 3\n\nDyadic verbs (infix form):\n+  Plus       element-wise addition                1 2 3+4 5 6     ->  5 7 9\n#  Reshape    the elements under a new shape       2 3#1 2 3 4 5 6\n{  From       selection by position                0 2{10 20 30    ->  10 30\n,  Append     one array after the other            1 2,3 4         ->  1 2 3 4\n<  Less than  1 or 0, element by element           1 5<3 3         ->  1 0\n\nArrays:\n42                a scalar\n1 2 3             a vector: numerals separated by spaces\n2 3#1 2 3 4 5 6   a matrix, made by reshaping\n\nParentheses group: (1 2,3 4)+1\n"@
}

/// The help text.
pub fn get_help_text() -> (text: String)
    ensures
        text@ == help_text(),
{
    String::from_str(
        "\nArray Language REPL - Help\n==========================\n\nAn expression combines numeric arrays with one-character verbs.\nA verb before its argument is monadic; a verb between two arguments is dyadic.\n\nMonadic verbs (prefix form):\n~  Iota       the integers from 0 up to n-1        ~5        ->  0 1 2 3 4\n#  Tally      the size of the first dimension      #1 2 3    ->  3\n,  Ravel      the elements as a vector             ,(2 2#1 2 3 4)  ->  1 2 3 4\n<  Box        the array as one boxed value         <1 2 3\n\nDyadic verbs (infix form):\n+  Plus       element-wise addition                1 2 3+4 5 6     ->  5 7 9\n#  Reshape    the elements under a new shape       2 3#1 2 3 4 5 6\n{  From       selection by position                0 2{10 20 30    ->  10 30\n,  Append     one array after the other            1 2,3 4         ->  1 2 3 4\n<  Less than  1 or 0, element by element           1 5<3 3         ->  1 0\n\nArrays:\n42                a scalar\n1 2 3             a vector: numerals separated by spaces\n2 3#1 2 3 4 5 6   a matrix, made by reshaping\n\nParentheses group: (1 2,3 4)+1\n",
    )
}

fn report(error: &InterpreterError) -> (e: JError)
    ensures
        e.kind() == reported_kind(error@),
        e.message() == error@.said(),
{
    match error {
        InterpreterError::TokenError(inner) => JError::ParseError(inner.to_string()),
        InterpreterError::ParseError(inner) => JError::ParseError(inner.to_string()),
        InterpreterError::SemanticError(inner) => JError::ParseError(inner.to_string()),
        InterpreterError::EvaluationError(inner) => match inner {
            EvaluationError::UnsupportedVerb(_, _) => JError::ExecutionError(inner.to_string()),
            _ => JError::InvalidArgument(inner.to_string()),
        },
    }
}

/// The text of the value of the expression that `expression` writes.
/// The word `help` alone gives the help text instead.
pub fn execute(expression: &str) -> (r: Result<String, JError>)
    ensures
        asks_help(expression@) ==> (r matches Ok(text) && text@ == help_text()),
        !asks_help(expression@) ==> (match r {
            Ok(text) => (interpret(expression@) matches Ok(a) && text@ == array_text(a)),
            Err(e) => (interpret(expression@) matches Err(f) && e.kind() == reported_kind(f)
                && e.message() == f.said()),
        }),
{
    if is_help(expression) {
        return Ok(get_help_text());
    }
    let interpreter = JInterpreter::new();
    match interpreter.execute(expression) {
        Ok(array) => Ok(array.to_string()),
        Err(e) => Err(report(&e)),
    }
}

/// The text of an outcome, for display: the text of the array, or
/// `Error: ` and what the error says.
pub open spec fn result_text(result: Result<JArray, InterpreterError>) -> Seq<char> {
    match result {
        Ok(array) => array_text(array@),
        Err(error) => "Error: "@ + error@.text(),
    }
}

/// The text of an outcome, for display.
pub fn format_result(result: Result<JArray, InterpreterError>) -> (text: String)
    requires
        result matches Ok(array) ==> array.wf(),
    ensures
        text@ == result_text(result),
{
    match result {
        Ok(array) => array.to_string(),
        Err(error) => {
            let mut out = String::from_str("Error: ");
            out.append(error.to_string().as_str());
            out
        },
    }
}

} // verus!
