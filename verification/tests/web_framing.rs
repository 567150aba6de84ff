use j_interp::web::escape_json;
use j_interp::web::evaluate_j_expression;
use j_interp::web::extract_json_field;
use j_interp::web::handle_j_eval_request;
use j_interp::web::html_escape;
use j_interp::web::json_unescape;
use j_interp::web::parse_form_data;
use j_interp::web::parse_j_eval_request;
use j_interp::web::url_decode;

#[test]
fn url_decoding() {
    assert_eq!(url_decode("a+b"), "a b");
    assert_eq!(url_decode("1%2B2 "), "1+2 ");
    assert_eq!(url_decode("%7E3%2b%7e3x"), "~3+~3x");
    assert_eq!(url_decode("%41"), "A");
    assert_eq!(url_decode("%4"), "%4");
    assert_eq!(url_decode("%41!"), "A!");
    assert_eq!(url_decode("%zz1"), "%zz1");
    assert_eq!(url_decode("%+51"), "\u{5}1");
    assert_eq!(url_decode("%-51"), "%-51");
    assert_eq!(url_decode("100%"), "100%");
    assert_eq!(url_decode(""), "");
    assert_eq!(url_decode("%C3%A9."), "\u{c3}\u{a9}.");
}

#[test]
fn html_escaping() {
    assert_eq!(html_escape("1<2 & 3>2"), "1&lt;2 &amp; 3&gt;2");
    assert_eq!(html_escape("\"it's\""), "&quot;it&#39;s&quot;");
    assert_eq!(html_escape("&amp;"), "&amp;amp;");
    assert_eq!(html_escape("plain"), "plain");
}

#[test]
fn json_escapes() {
    assert_eq!(json_unescape("a\\nb"), "a\nb");
    assert_eq!(json_unescape("say \\\"hi\\\""), "say \"hi\"");
    assert_eq!(json_unescape("\\\\n"), "\n");
    assert_eq!(json_unescape("tab\\there\\r"), "tab\there\r");
    assert_eq!(escape_json("a\nb"), "a\\nb");
    assert_eq!(escape_json("\"q\" \\ \t\r"), "\\\"q\\\" \\\\ \\t\\r");
    assert_eq!(escape_json("1 2\n3 4"), "1 2\\n3 4");
}

#[test]
fn json_fields() {
    let body = "{\"expression\": \"~3+~3\", \"parser\": \"lalr\"}";
    assert_eq!(extract_json_field(body, "expression"), Some("~3+~3".to_string()));
    assert_eq!(extract_json_field(body, "parser"), Some("lalr".to_string()));
    assert_eq!(extract_json_field(body, "missing"), None);
    assert_eq!(extract_json_field("{\"expression\":\n\t\"1\\n2\"}", "expression"), Some("1\n2".to_string()));
    assert_eq!(extract_json_field("{\"expression\": 12}", "expression"), None);
    assert_eq!(extract_json_field("{\"expression\" \"1\"}", "expression"), None);
    assert_eq!(extract_json_field("{\"expression\": \"1", "expression"), None);
    assert_eq!(extract_json_field("{\"expression\": \"\"}", "expression"), Some(String::new()));
}

#[test]
fn request_bodies() {
    assert_eq!(
        parse_j_eval_request("  {\"expression\": \"1 2,3\"}"),
        ("1 2,3".to_string(), "custom".to_string())
    );
    assert_eq!(
        parse_j_eval_request("{\"parser\": \"lalr\", \"expression\": \"#1 2\"}"),
        ("#1 2".to_string(), "lalr".to_string())
    );
    assert_eq!(parse_j_eval_request("{}"), (String::new(), "custom".to_string()));
    assert_eq!(
        parse_j_eval_request("expression=1+2%2C3"),
        ("1 2,3".to_string(), "custom".to_string())
    );
    assert_eq!(parse_j_eval_request("  ~5 \n"), ("~5".to_string(), "custom".to_string()));
    assert_eq!(parse_j_eval_request(""), (String::new(), "custom".to_string()));
    assert_eq!(
        parse_j_eval_request(" expression=1"),
        ("expression=1".to_string(), "custom".to_string())
    );
}

#[test]
fn form_data() {
    assert_eq!(parse_form_data("expression=2+3%231+2+3"), Some("2 3#1 2 3".to_string()));
    assert_eq!(parse_form_data("a=1&expression=~5&b=2"), Some("~5".to_string()));
    assert_eq!(parse_form_data("expression="), Some(String::new()));
    assert_eq!(parse_form_data("message=hello"), None);
}

#[test]
fn answers_as_text_and_json() {
    assert_eq!(evaluate_j_expression("1 2 3+4 5 6"), "5 7 9");
    assert_eq!(evaluate_j_expression("2 2#1 2 3 4"), "1 2\n3 4");
    assert_eq!(evaluate_j_expression("1 & 2"), "Tokenization error: Unknown character: &");
    assert_eq!(evaluate_j_expression("(1"), "Parse error: Invalid expression: Error: Missing closing parenthesis");
    assert_eq!(
        evaluate_j_expression("{1"),
        "Semantic error: Invalid usage of verb '{': Monadic { (catalog) not supported in this implementation"
    );
    assert_eq!(
        evaluate_j_expression("1 2+1 2 3"),
        "Evaluation error: Dimension mismatch: Arrays must have matching shapes for addition"
    );
    assert_eq!(handle_j_eval_request("expression=~4"), "{\"result\": \"0 1 2 3\"}");
    assert_eq!(
        handle_j_eval_request("expression=2+2%231+2+3+4"),
        "{\"result\": \"1 2\\n3 4\"}"
    );
    assert_eq!(
        handle_j_eval_request("nothing"),
        "{\"result\": \"Error: Invalid request format\"}"
    );
    assert_eq!(
        handle_j_eval_request("expression=(1"),
        "{\"result\": \"Parse error: Invalid expression: Error: Missing closing parenthesis\"}"
    );
}
