//! Request and response framing for a web front end: form data and
//! JSON bodies in, JSON and HTML text out.

use std::collections::VecDeque;
use vstd::prelude::*;
use vstd::string::StrSliceExecFns;
use vstd::string::StringExecFns;
use vstd::utf8::encode_utf8;
use crate::array::ArrayModel;
use crate::display::array_text;
use crate::display::join_texts;
use crate::display::texts_of;
use crate::text::join;
use crate::evaluator::JEvaluator;
use crate::interpreter::InterpreterFault;
use crate::interpreter::interpret;
use crate::interpreter::read;
use crate::visualizer::ParseTreeVisualizer;
use crate::visualizer::node_text;
use crate::parser::CustomParser;
use crate::semantic_analyzer::JSemanticAnalyzer;
use crate::text::chars_of;
use crate::text::find_from;
use crate::text::find_in;
use crate::text::replace_all;
use crate::text::replace_in;
use crate::text::skip_whitespace;
use crate::text::skip_whitespace_back;
use crate::text::slice_of;
use crate::text::starts_at;
use crate::text::string_of;
use crate::text::trimmed;
use crate::text::matches_at;
use crate::text::whitespace_end;
use crate::tokenizer::JTokenizer;

verus! {

/// `chars` with every occurrence of `from` replaced by `to`.
fn replaced(chars: Vec<char>, from: &str, to: &str) -> (out: Vec<char>)
    requires
        from@.len() > 0,
    ensures
        out@ == replace_all(chars@, from@, to@),
{
    let pattern = chars_of(from);
    let with = chars_of(to);
    replace_in(&chars, &pattern, &with)
}

/// `s` with the five characters that HTML gives a meaning written as
/// entities: `&` first, then `<`, `>`, `"` and `'`.
pub open spec fn html_escaped(s: Seq<char>) -> Seq<char> {
    replace_all(
        replace_all(
            replace_all(
                replace_all(replace_all(s, seq!['&'], "&amp;"@), seq!['<'], "&lt;"@),
                seq!['>'],
                "&gt;"@,
            ),
            seq!['"'],
            "&quot;"@,
        ),
        seq!['\''],
        "&#39;"@,
    )
}

/// `s` with the five characters that HTML gives a meaning written as
/// entities.
pub fn html_escape(s: &str) -> (out: String)
    ensures
        out@ == html_escaped(s@),
{
    proof {
        reveal_strlit("&");
        reveal_strlit("<");
        reveal_strlit(">");
        reveal_strlit("\"");
        reveal_strlit("'");
        assert("&"@ =~= seq!['&']);
        assert("<"@ =~= seq!['<']);
        assert(">"@ =~= seq!['>']);
        assert("\""@ =~= seq!['"']);
        assert("'"@ =~= seq!['\'']);
    }
    let chars = chars_of(s);
    let chars = replaced(chars, "&", "&amp;");
    let chars = replaced(chars, "<", "&lt;");
    let chars = replaced(chars, ">", "&gt;");
    let chars = replaced(chars, "\"", "&quot;");
    let chars = replaced(chars, "'", "&#39;");
    string_of(&chars)
}

/// `s` with the escapes of a JSON string undone, one kind after the
/// other over the whole text: `\"` first, then `\\`, `\n`, `\r`, `\t`.
pub open spec fn json_unescaped(s: Seq<char>) -> Seq<char> {
    replace_all(
        replace_all(
            replace_all(
                replace_all(replace_all(s, seq!['\\', '"'], seq!['"']), seq!['\\', '\\'], seq!['\\']),
                seq!['\\', 'n'],
                seq!['\n'],
            ),
            seq!['\\', 'r'],
            seq!['\r'],
        ),
        seq!['\\', 't'],
        seq!['\t'],
    )
}

/// `s` with the escapes of a JSON string undone.
pub fn json_unescape(s: &str) -> (out: String)
    ensures
        out@ == json_unescaped(s@),
{
    let chars = json_unescape_chars(chars_of(s));
    string_of(&chars)
}

fn json_unescape_chars(chars: Vec<char>) -> (out: Vec<char>)
    ensures
        out@ == json_unescaped(chars@),
{
    proof {
        reveal_strlit("\\\"");
        reveal_strlit("\"");
        reveal_strlit("\\\\");
        reveal_strlit("\\");
        reveal_strlit("\\n");
        reveal_strlit("\n");
        reveal_strlit("\\r");
        reveal_strlit("\r");
        reveal_strlit("\\t");
        reveal_strlit("\t");
        assert("\\\""@ =~= seq!['\\', '"']);
        assert("\""@ =~= seq!['"']);
        assert("\\\\"@ =~= seq!['\\', '\\']);
        assert("\\"@ =~= seq!['\\']);
        assert("\\n"@ =~= seq!['\\', 'n']);
        assert("\n"@ =~= seq!['\n']);
        assert("\\r"@ =~= seq!['\\', 'r']);
        assert("\r"@ =~= seq!['\r']);
        assert("\\t"@ =~= seq!['\\', 't']);
        assert("\t"@ =~= seq!['\t']);
    }
    let chars = replaced(chars, "\\\"", "\"");
    let chars = replaced(chars, "\\\\", "\\");
    let chars = replaced(chars, "\\n", "\n");
    let chars = replaced(chars, "\\r", "\r");
    replaced(chars, "\\t", "\t")
}

/// `s` written as the inside of a JSON string: `\` first, then `"`,
/// the line feed, the carriage return and the tab, each as its escape.
pub open spec fn json_escaped(s: Seq<char>) -> Seq<char> {
    replace_all(
        replace_all(
            replace_all(
                replace_all(replace_all(s, seq!['\\'], seq!['\\', '\\']), seq!['"'], seq!['\\', '"']),
                seq!['\n'],
                seq!['\\', 'n'],
            ),
            seq!['\r'],
            seq!['\\', 'r'],
        ),
        seq!['\t'],
        seq!['\\', 't'],
    )
}

/// `s` written as the inside of a JSON string.
pub fn escape_json(s: &str) -> (out: String)
    ensures
        out@ == json_escaped(s@),
{
    proof {
        reveal_strlit("\\\"");
        reveal_strlit("\"");
        reveal_strlit("\\\\");
        reveal_strlit("\\");
        reveal_strlit("\\n");
        reveal_strlit("\n");
        reveal_strlit("\\r");
        reveal_strlit("\r");
        reveal_strlit("\\t");
        reveal_strlit("\t");
        assert("\\\""@ =~= seq!['\\', '"']);
        assert("\""@ =~= seq!['"']);
        assert("\\\\"@ =~= seq!['\\', '\\']);
        assert("\\"@ =~= seq!['\\']);
        assert("\\n"@ =~= seq!['\\', 'n']);
        assert("\n"@ =~= seq!['\n']);
        assert("\\r"@ =~= seq!['\\', 'r']);
        assert("\r"@ =~= seq!['\r']);
        assert("\\t"@ =~= seq!['\\', 't']);
        assert("\t"@ =~= seq!['\t']);
    }
    let chars = chars_of(s);
    let chars = replaced(chars, "\\", "\\\\");
    let chars = replaced(chars, "\"", "\\\"");
    let chars = replaced(chars, "\n", "\\n");
    let chars = replaced(chars, "\r", "\\r");
    let chars = replaced(chars, "\t", "\\t");
    string_of(&chars)
}

/// The number that the byte `b` writes as a hexadecimal digit.
pub open spec fn hex_value(b: u8) -> Option<int> {
    if 48 <= b <= 57 {
        Some(b - 48)
    } else if 97 <= b <= 102 {
        Some(b - 87)
    } else if 65 <= b <= 70 {
        Some(b - 55)
    } else {
        None
    }
}

/// The number that two bytes write in hexadecimal. A plus sign may
/// stand for the first digit.
pub open spec fn hex_pair(high: u8, low: u8) -> Option<int> {
    if high == 43 {
        hex_value(low)
    } else {
        match (hex_value(high), hex_value(low)) {
            (Some(h), Some(l)) => Some(16 * h + l),
            _ => None,
        }
    }
}

/// The text that the URL-encoded bytes from `pos` on stand for: `%`
/// and two hexadecimal digits, where two more bytes follow them, are
/// the character of that number; `+` is a space; any other byte is the
/// character of its number.
pub open spec fn url_decoded(bytes: Seq<u8>, pos: int) -> Seq<char>
    decreases bytes.len() - pos,
{
    if !(0 <= pos < bytes.len()) {
        Seq::empty()
    } else if bytes[pos] == 37 && pos + 2 < bytes.len() {
        match hex_pair(bytes[pos + 1], bytes[pos + 2]) {
            Some(v) => seq![(v as u8) as char] + url_decoded(bytes, pos + 3),
            None => seq!['%'] + url_decoded(bytes, pos + 1),
        }
    } else if bytes[pos] == 43 {
        seq![' '] + url_decoded(bytes, pos + 1)
    } else {
        seq![bytes[pos] as char] + url_decoded(bytes, pos + 1)
    }
}

fn hex_digit(b: u8) -> (r: Option<u8>)
    ensures
        match r {
            Some(v) => hex_value(b) == Some(v as int) && v < 16,
            None => hex_value(b) is None,
        },
{
    if b >= 48 && b <= 57 {
        Some(b - 48)
    } else if b >= 97 && b <= 102 {
        Some(b - 87)
    } else if b >= 65 && b <= 70 {
        Some(b - 55)
    } else {
        None
    }
}

fn hex_byte(high: u8, low: u8) -> (r: Option<u8>)
    ensures
        match r {
            Some(v) => hex_pair(high, low) == Some(v as int),
            None => hex_pair(high, low) is None,
        },
{
    if high == 43 {
        hex_digit(low)
    } else {
        match hex_digit(high) {
            Some(h) => match hex_digit(low) {
                Some(l) => Some(16 * h + l),
                None => None,
            },
            None => None,
        }
    }
}

/// The text that the URL-encoded text `input` stands for, byte by
/// byte of its UTF-8 form.
pub fn url_decode(input: &str) -> (out: String)
    ensures
        out@ == url_decoded(encode_utf8(input@), 0),
{
    let bytes = input.as_bytes_vec();
    let n = bytes.len();
    let mut out = String::new();
    let mut i: usize = 0;
    proof {
        assert(Seq::<char>::empty() + url_decoded(bytes@, 0) =~= url_decoded(bytes@, 0));
    }
    while i < n
        invariant
            n == bytes@.len(),
            i <= n,
            url_decoded(bytes@, 0) == out@ + url_decoded(bytes@, i as int),
        decreases n - i,
    {
        let ghost before = out@;
        let b = bytes[i];
        if b == 37 && n - i > 2 {
            match hex_byte(bytes[i + 1], bytes[i + 2]) {
                Some(v) => {
                    out.push(v as char);
                    proof {
                        assert(before + (seq![v as char] + url_decoded(bytes@, i + 3))
                            =~= before.push(v as char) + url_decoded(bytes@, i + 3));
                    }
                    i = i + 3;
                },
                None => {
                    out.push('%');
                    proof {
                        assert(before + (seq!['%'] + url_decoded(bytes@, i + 1)) =~= before.push(
                            '%',
                        ) + url_decoded(bytes@, i + 1));
                    }
                    i = i + 1;
                },
            }
        } else if b == 43 {
            out.push(' ');
            proof {
                assert(before + (seq![' '] + url_decoded(bytes@, i + 1)) =~= before.push(' ')
                    + url_decoded(bytes@, i + 1));
            }
            i = i + 1;
        } else {
            out.push(b as char);
            proof {
                assert(before + (seq![b as char] + url_decoded(bytes@, i + 1)) =~= before.push(
                    b as char,
                ) + url_decoded(bytes@, i + 1));
            }
            i = i + 1;
        }
    }
    proof {
        assert(out@ + Seq::<char>::empty() =~= out@);
    }
    out
}

/// `field` between double quotes.
pub open spec fn quoted(field: Seq<char>) -> Seq<char> {
    seq!['"'] + field + seq!['"']
}

/// The text of the string that follows the name `field` in the JSON
/// text `json`: after the first place where the quoted name stands
/// comes the next colon, then white space, then a double quote, and
/// the text runs up to the next double quote, with its escapes undone.
/// There is no such text where one of these is missing.
pub open spec fn json_field(json: Seq<char>, field: Seq<char>) -> Option<Seq<char>> {
    match find_from(json, quoted(field), 0) {
        None => None,
        Some(start) => match find_from(json, seq![':'], start + quoted(field).len()) {
            None => None,
            Some(colon) => {
                let open = whitespace_end(json, colon + 1);
                if open < json.len() && json[open] == '"' {
                    match find_from(json, seq!['"'], open + 1) {
                        None => None,
                        Some(close) => Some(json_unescaped(json.subrange(open + 1, close))),
                    }
                } else {
                    None
                }
            },
        },
    }
}

fn json_field_chars(json: &Vec<char>, field: &Vec<char>) -> (r: Option<Vec<char>>)
    ensures
        match r {
            Some(text) => json_field(json@, field@) == Some(text@),
            None => json_field(json@, field@) is None,
        },
{
    let mut pattern: Vec<char> = Vec::new();
    pattern.push('"');
    let mut k: usize = 0;
    while k < field.len()
        invariant
            k <= field.len(),
            pattern@ == seq!['"'] + field@.take(k as int),
        decreases field.len() - k,
    {
        pattern.push(field[k]);
        assert((seq!['"'] + field@.take(k as int)).push(field@[k as int]) =~= seq!['"']
            + field@.take(k + 1));
        k = k + 1;
    }
    pattern.push('"');
    proof {
        assert(field@.take(field@.len() as int) =~= field@);
        assert(pattern@ =~= quoted(field@));
    }
    let mut colon_mark: Vec<char> = Vec::new();
    colon_mark.push(':');
    let mut quote_mark: Vec<char> = Vec::new();
    quote_mark.push('"');
    assert(colon_mark@ =~= seq![':']);
    assert(quote_mark@ =~= seq!['"']);
    let n = json.len();
    let start = match find_in(json, &pattern, 0) {
        Some(start) => start,
        None => {
            return None;
        },
    };
    let colon = match find_in(json, &colon_mark, start + pattern.len()) {
        Some(colon) => colon,
        None => {
            return None;
        },
    };
    let open = skip_whitespace(json, colon + 1);
    if open < json.len() && json[open] == '"' {
        match find_in(json, &quote_mark, open + 1) {
            Some(close) => Some(json_unescape_chars(slice_of(json, open + 1, close))),
            None => None,
        }
    } else {
        None
    }
}

/// The text of the string that follows the name `field` in the JSON
/// text `json`, if there is one.
pub fn extract_json_field(json: &str, field: &str) -> (r: Option<String>)
    ensures
        match r {
            Some(text) => json_field(json@, field@) == Some(text@),
            None => json_field(json@, field@) is None,
        },
{
    let json_chars = chars_of(json);
    let field_chars = chars_of(field);
    match json_field_chars(&json_chars, &field_chars) {
        Some(text) => Some(string_of(&text)),
        None => None,
    }
}

/// The expression that a request body asks for. A body that starts,
/// after white space, with `{` is JSON: the expression is the string
/// named `expression`, empty where there is none. A body that starts
/// with `expression=` is form data: the expression is the rest,
/// URL-decoded. Any other body is the expression itself, trimmed.
pub open spec fn requested_expression(body: Seq<char>) -> Seq<char> {
    let start = whitespace_end(body, 0);
    if start < body.len() && body[start] == '{' {
        match json_field(body, "expression"@) {
            Some(text) => text,
            None => Seq::empty(),
        }
    } else if matches_at(body, 0, "expression="@) {
        url_decoded(encode_utf8(body.subrange("expression="@.len() as int, body.len() as int)), 0)
    } else {
        trimmed(body)
    }
}

/// The parser that a request body asks for: the string named `parser`
/// of a JSON body, `custom` where there is none or the body is no
/// JSON.
pub open spec fn requested_parser(body: Seq<char>) -> Seq<char> {
    let start = whitespace_end(body, 0);
    if start < body.len() && body[start] == '{' {
        match json_field(body, "parser"@) {
            Some(text) => text,
            None => "custom"@,
        }
    } else {
        "custom"@
    }
}

/// The expression and the parser that a request body asks for.
pub fn parse_j_eval_request(body: &str) -> (r: (String, String))
    ensures
        r.0@ == requested_expression(body@),
        r.1@ == requested_parser(body@),
{
    let chars = chars_of(body);
    let n = chars.len();
    let start = skip_whitespace(&chars, 0);
    if start < n && chars[start] == '{' {
        let expression = match json_field_chars(&chars, &chars_of("expression")) {
            Some(text) => string_of(&text),
            None => String::new(),
        };
        let parser = match json_field_chars(&chars, &chars_of("parser")) {
            Some(text) => string_of(&text),
            None => String::from_str("custom"),
        };
        (expression, parser)
    } else {
        let prefix = chars_of("expression=");
        if starts_at(&chars, 0, &prefix) {
            let rest = body.substring_char(prefix.len(), n);
            (url_decode(rest), String::from_str("custom"))
        } else {
            let stop = skip_whitespace_back(&chars, start, n);
            (string_of(&slice_of(&chars, start, stop)), String::from_str("custom"))
        }
    }
}

/// Where the value of the form field ends: at the first `&` at or
/// after `from`, or at the end of the body.
pub open spec fn field_end(body: Seq<char>, from: int) -> int {
    match find_from(body, seq!['&'], from) {
        Some(end) => end,
        None => body.len() as int,
    }
}

/// The expression in form data: what follows the first `expression=`
/// up to the next `&`, with each `+` read as a space and each `%23` as
/// `#`. There is none where the body does not name the field.
pub open spec fn form_expression(body: Seq<char>) -> Option<Seq<char>> {
    match find_from(body, "expression="@, 0) {
        None => None,
        Some(start) => {
            let from = start + "expression="@.len();
            Some(
                replace_all(
                    replace_all(
                        body.subrange(from, field_end(body, from)),
                        seq!['+'],
                        seq![' '],
                    ),
                    seq!['%', '2', '3'],
                    seq!['#'],
                ),
            )
        },
    }
}

/// The expression in form data, if the body names the field.
pub fn parse_form_data(body: &str) -> (r: Option<String>)
    ensures
        match r {
            Some(text) => form_expression(body@) == Some(text@),
            None => form_expression(body@) is None,
        },
{
    let chars = chars_of(body);
    let n = chars.len();
    let name = chars_of("expression=");
    let start = match find_in(&chars, &name, 0) {
        Some(start) => start,
        None => {
            return None;
        },
    };
    let from = start + name.len();
    let mut mark: Vec<char> = Vec::new();
    mark.push('&');
    assert(mark@ =~= seq!['&']);
    let end = match find_in(&chars, &mark, from) {
        Some(end) => end,
        None => n,
    };
    proof {
        reveal_strlit("+");
        reveal_strlit(" ");
        reveal_strlit("%23");
        reveal_strlit("#");
        assert("+"@ =~= seq!['+']);
        assert(" "@ =~= seq![' ']);
        assert("%23"@ =~= seq!['%', '2', '3']);
        assert("#"@ =~= seq!['#']);
    }
    let value = slice_of(&chars, from, end);
    let value = replaced(value, "+", " ");
    let value = replaced(value, "%23", "#");
    Some(string_of(&value))
}

/// What the stage that failed is called in an answer.
pub open spec fn stage_name(fault: InterpreterFault) -> Seq<char> {
    match fault {
        InterpreterFault::Token(_) => "Tokenization error: "@,
        InterpreterFault::Parse(_) => "Parse error: "@,
        InterpreterFault::Semantic(_) => "Semantic error: "@,
        InterpreterFault::Evaluation(_) => "Evaluation error: "@,
    }
}

/// The answer to the expression that `expression` writes, as text:
/// the text of its value, or the name of the stage that failed and
/// what its error says.
pub open spec fn answer_text(expression: Seq<char>) -> Seq<char> {
    match interpret(expression) {
        Ok(a) => array_text(a),
        Err(f) => stage_name(f) + f.said(),
    }
}

/// The answer of a server to the expression that `expression` writes.
pub open spec fn server_answer_text(expression: Seq<char>) -> Seq<char> {
    match interpret(expression) {
        Ok(a) => array_text(a),
        Err(f) => server_stage_name(f) + f.said(),
    }
}

/// The names of the four stages, as an answer gives them.
pub struct StageNames<'a> {
    pub token: &'a str,
    pub parse: &'a str,
    pub semantic: &'a str,
    pub evaluation: &'a str,
}

impl<'a> StageNames<'a> {
    /// The name of the stage that failed.
    pub open spec fn of(&self, fault: InterpreterFault) -> Seq<char> {
        match fault {
            InterpreterFault::Token(_) => self.token@,
            InterpreterFault::Parse(_) => self.parse@,
            InterpreterFault::Semantic(_) => self.semantic@,
            InterpreterFault::Evaluation(_) => self.evaluation@,
        }
    }

    /// The answer to an expression with the outcome `outcome`: the
    /// text of its value, or the name of the stage that failed and
    /// then what its error says.
    pub open spec fn answer(&self, outcome: Result<ArrayModel, InterpreterFault>) -> Seq<char> {
        match outcome {
            Ok(a) => array_text(a),
            Err(f) => self.of(f) + f.said(),
        }
    }
}

/// The answer to an expression, as text: the text of its value, or
/// the name of the stage that failed and then what its error says.
pub fn answer_with(expression: &str, names: &StageNames) -> (answer: String)
    ensures
        answer@ == names.answer(interpret(expression@)),
{
    let tokenizer = JTokenizer::new();
    let mut parser = CustomParser::new();
    let semantic_analyzer = JSemanticAnalyzer::new();
    let evaluator = JEvaluator::new();
    match tokenizer.tokenize(expression) {
        Ok(tokens) => match parser.parse(tokens) {
            Ok(ast) => match semantic_analyzer.analyze(ast) {
                Ok(resolved_ast) => match evaluator.evaluate(&resolved_ast) {
                    Ok(result) => result.to_string(),
                    Err(e) => named(names.evaluation, e.to_string()),
                },
                Err(e) => named(names.semantic, e.to_string()),
            },
            Err(e) => named(names.parse, e.to_string()),
        },
        Err(e) => named(names.token, e.to_string()),
    }
}

/// `name` and then `said`.
fn named(name: &str, said: String) -> (answer: String)
    ensures
        answer@ == name@ + said@,
{
    let mut answer = String::from_str(name);
    answer.append(said.as_str());
    answer
}

/// The answer to an expression, as text: the text of its value, or
/// the name of the stage that failed and what its error says.
pub fn evaluate_j_expression(expression: &str) -> (answer: String)
    ensures
        answer@ == answer_text(expression@),
{
    let names = StageNames {
        token: "Tokenization error: ",
        parse: "Parse error: ",
        semantic: "Semantic error: ",
        evaluation: "Evaluation error: ",
    };
    answer_with(expression, &names)
}

/// A JSON object with the one member `result`, which holds `answer`.
pub open spec fn result_json(answer: Seq<char>) -> Seq<char> {
    "{\"result\": \""@ + json_escaped(answer) + "\"}"@
}

/// The JSON answer to a request in form data: the answer to its
/// expression as the member `result`, or a note that the request names
/// no expression.
pub fn handle_j_eval_request(request_body: &str) -> (response: String)
    ensures
        form_expression(request_body@) is None ==> response@
            == "{\"result\": \"Error: Invalid request format\"}"@,
        form_expression(request_body@) matches Some(expression) ==> response@ == result_json(
            answer_text(expression),
        ),
{
    let expression = match parse_form_data(request_body) {
        Some(expression) => expression,
        None => {
            return String::from_str("{\"result\": \"Error: Invalid request format\"}");
        },
    };
    let answer = evaluate_j_expression(expression.as_str());
    let mut response = String::from_str("{\"result\": \"");
    response.append(escape_json(answer.as_str()).as_str());
    response.append("\"}");
    assert(response@ == result_json(answer@));
    response
}

/// What the stage that failed is called in a server's answer.
pub open spec fn server_stage_name(fault: InterpreterFault) -> Seq<char> {
    match fault {
        InterpreterFault::Token(_) => "Token Error: "@,
        InterpreterFault::Parse(_) => "Custom Parse Error: "@,
        InterpreterFault::Semantic(_) => "Semantic Error: "@,
        InterpreterFault::Evaluation(_) => "Evaluation Error: "@,
    }
}

/// `answer` as the member `result` of a JSON object, with its double
/// quotes and line feeds escaped.
pub open spec fn server_json(answer: Seq<char>) -> Seq<char> {
    "{\"result\": \""@ + replace_all(
        replace_all(answer, seq!['"'], seq!['\\', '"']),
        seq!['\n'],
        seq!['\\', 'n'],
    ) + "\"}"@
}

/// `answer` as the member `result` of a JSON object.
pub fn json_result(answer: &str) -> (json: String)
    ensures
        json@ == server_json(answer@),
{
    proof {
        reveal_strlit("\"");
        reveal_strlit("\\\"");
        reveal_strlit("\n");
        reveal_strlit("\\n");
        assert("\""@ =~= seq!['"']);
        assert("\\\""@ =~= seq!['\\', '"']);
        assert("\n"@ =~= seq!['\n']);
        assert("\\n"@ =~= seq!['\\', 'n']);
    }
    let chars = chars_of(answer);
    let chars = replaced(chars, "\"", "\\\"");
    let chars = replaced(chars, "\n", "\\n");
    let mut json = String::from_str("{\"result\": \"");
    json.append(string_of(&chars).as_str());
    json.append("\"}");
    json
}

/// The JSON answer of a server to the body of an evaluation request.
/// A body that asks for no expression, or for one of white space
/// only, is told so; else the answer to the expression is the member
/// `result`.
pub open spec fn server_reply(body: Seq<char>) -> Seq<char> {
    if trimmed(requested_expression(body)).len() == 0 {
        "{\"error\": \"No expression provided\"}"@
    } else {
        server_json(server_answer_text(requested_expression(body)))
    }
}

/// What a server notes of an expression that it evaluates: the
/// expression, its tree where it parses, and its value after
/// `Result: `, or else what went wrong.
pub open spec fn evaluation_notes(expression: Seq<char>) -> Seq<char> {
    "Evaluating: "@ + expression + " (using custom parser)\n"@ + "Expression: "@ + expression
        + seq!['\n'] + (match read(expression) {
        Ok(tree) => "Custom Parse Tree:\n"@ + node_text(tree, 0) + seq!['\n'],
        Err(_) => Seq::empty(),
    }) + (match interpret(expression) {
        Ok(a) => "Result: "@ + array_text(a),
        Err(f) => server_stage_name(f) + f.said(),
    }) + "\n\n"@
}

/// What a server notes of an evaluation request: the body, and its
/// notes of the expression where the body asks for one.
pub open spec fn server_notes(body: Seq<char>) -> Seq<char> {
    "Received body: "@ + body + seq!['\n'] + (if trimmed(requested_expression(body)).len() == 0 {
        Seq::empty()
    } else {
        evaluation_notes(requested_expression(body))
    })
}

/// The tree of `expression` as a server notes it, where it parses; the
/// answer to the expression as the server gives it; and whether the
/// expression has a value.
fn tree_and_answer(expression: &str) -> (r: (String, String, bool))
    ensures
        r.0@ == (match read(expression@) {
            Ok(tree) => "Custom Parse Tree:\n"@ + node_text(tree, 0) + seq!['\n'],
            Err(_) => Seq::<char>::empty(),
        }),
        r.1@ == server_answer_text(expression@),
        r.2 == (interpret(expression@) is Ok),
{
    let tokenizer = JTokenizer::new();
    let mut parser = CustomParser::new();
    let semantic_analyzer = JSemanticAnalyzer::new();
    let evaluator = JEvaluator::new();
    let visualizer = ParseTreeVisualizer::new();
    let tokens = match tokenizer.tokenize(expression) {
        Ok(tokens) => tokens,
        Err(e) => {
            return (String::new(), named("Token Error: ", e.to_string()), false);
        },
    };
    let ast = match parser.parse(tokens) {
        Ok(ast) => ast,
        Err(e) => {
            return (String::new(), named("Custom Parse Error: ", e.to_string()), false);
        },
    };
    let mut tree = String::from_str("Custom Parse Tree:\n");
    tree.append(visualizer.visualize(&ast).as_str());
    tree.push('\n');
    assert(tree@ =~= "Custom Parse Tree:\n"@ + node_text(ast@, 0) + seq!['\n']);
    let resolved_ast = match semantic_analyzer.analyze(ast) {
        Ok(resolved) => resolved,
        Err(e) => {
            return (tree, named("Semantic Error: ", e.to_string()), false);
        },
    };
    match evaluator.evaluate(&resolved_ast) {
        Ok(result) => (tree, result.to_string(), true),
        Err(e) => (tree, named("Evaluation Error: ", e.to_string()), false),
    }
}

/// The JSON answer of a server to the body of an evaluation request,
/// and what the server notes of the request.
pub fn j_eval_reply(body: &str) -> (r: (String, String))
    ensures
        r.0@ == server_reply(body@),
        r.1@ == server_notes(body@),
{
    let (expression, _parser_choice) = parse_j_eval_request(body);
    let mut notes = String::from_str("Received body: ");
    notes.append(body);
    notes.push('\n');
    let ghost head = notes@;
    assert(head =~= "Received body: "@ + body@ + seq!['\n']);
    let chars = chars_of(expression.as_str());
    let start = skip_whitespace(&chars, 0);
    let stop = skip_whitespace_back(&chars, start, chars.len());
    if stop == start {
        assert(head + Seq::<char>::empty() =~= head);
        return (String::from_str("{\"error\": \"No expression provided\"}"), notes);
    }
    let (tree, answer, succeeded) = tree_and_answer(expression.as_str());
    notes.append("Evaluating: ");
    notes.append(expression.as_str());
    notes.append(" (using custom parser)\n");
    notes.append("Expression: ");
    notes.append(expression.as_str());
    notes.push('\n');
    notes.append(tree.as_str());
    if succeeded {
        notes.append("Result: ");
    }
    notes.append(answer.as_str());
    notes.append("\n\n");
    proof {
        let e = expression@;
        let shown = match interpret(e) {
            Ok(a) => "Result: "@ + array_text(a),
            Err(f) => server_stage_name(f) + f.said(),
        };
        assert(notes@ =~= head + ("Evaluating: "@ + e + " (using custom parser)\n"@
            + "Expression: "@ + e + seq!['\n'] + tree@ + shown + "\n\n"@));
    }
    (json_result(answer.as_str()), notes)
}

/// The JSON answer of a server to the body of an evaluation request.
pub fn j_eval_response(body: &str) -> (json: String)
    ensures
        json@ == server_reply(body@),
{
    let (json, _notes) = j_eval_reply(body);
    json
}

/// The message that a submitted form holds: what follows `message=`
/// at the start of the body, URL-decoded. There is none where the body
/// starts otherwise.
pub fn submitted_message(body: &str) -> (r: Option<String>)
    ensures
        match r {
            Some(message) => matches_at(body@, 0, "message="@) && message@ == url_decoded(
                encode_utf8(body@.subrange("message="@.len() as int, body@.len() as int)),
                0,
            ),
            None => !matches_at(body@, 0, "message="@),
        },
{
    let chars = chars_of(body);
    let prefix = chars_of("message=");
    if starts_at(&chars, 0, &prefix) {
        let rest = body.substring_char(prefix.len(), chars.len());
        Some(url_decode(rest))
    } else {
        None
    }
}

/// A message as a block of a page, with what HTML gives a meaning
/// escaped.
pub open spec fn message_block(message: Seq<char>) -> Seq<char> {
    "<div class=\"message\">"@ + html_escaped(message) + "</div>"@
}

/// A message as a block of a page.
pub fn message_div(message: &str) -> (block: String)
    ensures
        block@ == message_block(message@),
{
    let mut block = String::from_str("<div class=\"message\">");
    block.append(html_escape(message).as_str());
    block.append("</div>");
    block
}

/// The newest entries of a log, newest first, up to a limit.
pub struct BoundedLog {
    entries: VecDeque<String>,
    limit: usize,
}

impl BoundedLog {
    /// The entries, newest first.
    pub closed spec fn view(&self) -> Seq<Seq<char>> {
        Seq::new(self.entries@.len(), |i: int| self.entries@[i]@)
    }

    /// The most entries that the log keeps.
    pub closed spec fn limit(&self) -> nat {
        self.limit as nat
    }

    /// The log never holds more entries than its limit.
    pub closed spec fn wf(&self) -> bool {
        self.entries@.len() <= self.limit
    }

    /// An empty log that keeps up to `limit` entries.
    pub fn new(limit: usize) -> (log: Self)
        ensures
            log@ == Seq::<Seq<char>>::empty(),
            log.limit() == limit,
            log.wf(),
    {
        let log = BoundedLog { entries: VecDeque::new(), limit };
        assert(log@ =~= Seq::<Seq<char>>::empty());
        log
    }

    /// The number of entries.
    pub fn len(&self) -> (n: usize)
        ensures
            n == self@.len(),
    {
        self.entries.len()
    }

    /// The entry at `index`, counted from the newest.
    pub fn get(&self, index: usize) -> (entry: &String)
        requires
            index < self@.len(),
        ensures
            entry@ == self@[index as int],
    {
        &self.entries[index]
    }

    /// Puts `entry` before all others, and drops the oldest entries
    /// beyond the limit.
    pub fn add(&mut self, entry: String)
        ensures
            final(self).wf(),
            final(self).limit() == old(self).limit(),
            old(self)@.len() < old(self).limit() ==> final(self)@ == seq![entry@] + old(self)@,
            old(self)@.len() >= old(self).limit() ==> final(self)@ == (seq![entry@]
                + old(self)@).take(old(self).limit() as int),
    {
        let ghost full = seq![entry@] + self@;
        let ghost all = seq![entry] + self.entries@;
        self.entries.push_front(entry);
        assert(self@ =~= full);
        while self.entries.len() > self.limit
            invariant
                self.limit == old(self).limit,
                all.len() == full.len(),
                self.entries@.len() <= all.len(),
                self.entries@.len() == all.len() || self.entries@.len() >= self.limit,
                self.entries@ == all.take(self.entries@.len() as int),
                forall|k: int| 0 <= k < all.len() ==> (#[trigger] all[k])@ == full[k],
            decreases self.entries@.len(),
        {
            let ghost before = self.entries@;
            self.entries.pop_back();
            assert(self.entries@ =~= all.take(before.len() - 1));
        }
        assert(self@ =~= full.take(self.entries@.len() as int));
        assert(full.take(full.len() as int) =~= full);
    }

    /// The entries from the oldest to the newest, one per line, inside
    /// the block that a page shows them in.
    pub open spec fn page_text(entries: Seq<Seq<char>>) -> Seq<char> {
        "<div class=\"message-container\">"@ + join(entries.reverse(), seq!['\n']) + "</div>"@
    }

    /// The entries from the oldest to the newest, one per line, inside
    /// the block that a page shows them in.
    pub fn render(&self) -> (html: String)
        ensures
            html@ == BoundedLog::page_text(self@),
    {
        let n = self.entries.len();
        let mut oldest_first: Vec<String> = Vec::new();
        let mut i: usize = 0;
        while i < n
            invariant
                n == self.entries@.len(),
                i <= n,
                oldest_first@.len() == i,
                forall|k: int| 0 <= k < i ==> oldest_first@[k]@ == self@[n - 1 - k],
            decreases n - i,
        {
            oldest_first.push(self.entries[n - 1 - i].clone());
            i = i + 1;
        }
        proof {
            reveal_strlit("\n");
            assert("\n"@ =~= seq!['\n']);
            assert(texts_of(oldest_first@) =~= self@.reverse());
        }
        let mut html = String::from_str("<div class=\"message-container\">");
        html.append(join_texts(&oldest_first, "\n").as_str());
        html.append("</div>");
        html
    }
}

/// A page template with the place for messages filled: every
/// `$MESSAGES$` in it is replaced by `messages`.
pub fn fill_messages(template: &str, messages: &str) -> (page: String)
    ensures
        page@ == replace_all(template@, "$MESSAGES$"@, messages@),
{
    proof {
        reveal_strlit("$MESSAGES$");
    }
    let chars = replaced(chars_of(template), "$MESSAGES$", messages);
    string_of(&chars)
}

/// The content type that a file is served with, by the extension of
/// its name: HTML, CSS and JavaScript are named; any other file, and
/// one without an extension, is a stream of bytes.
pub fn content_type_for(extension: Option<&str>) -> (name: &'static str)
    ensures
        name@ == (match extension {
            Some(e) => if e@ == "html"@ {
                "text/html"@
            } else if e@ == "css"@ {
                "text/css"@
            } else if e@ == "js"@ {
                "application/javascript"@
            } else {
                "application/octet-stream"@
            },
            None => "application/octet-stream"@,
        }),
{
    match extension {
        Some(e) => {
            let chars = chars_of(e);
            if same_text(&chars, "html") {
                "text/html"
            } else if same_text(&chars, "css") {
                "text/css"
            } else if same_text(&chars, "js") {
                "application/javascript"
            } else {
                "application/octet-stream"
            }
        },
        None => "application/octet-stream",
    }
}

fn same_text(chars: &Vec<char>, word: &str) -> (b: bool)
    ensures
        b == (chars@ == word@),
{
    let other = chars_of(word);
    let b = chars.len() == other.len() && starts_at(chars, 0, &other);
    proof {
        if b {
            assert(chars@ =~= word@);
        }
    }
    b
}

} // verus!
