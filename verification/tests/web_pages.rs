use j_interp::web::content_type_for;
use j_interp::web::fill_messages;
use j_interp::web::j_eval_reply;
use j_interp::web::j_eval_response;
use j_interp::web::json_result;
use j_interp::web::message_div;
use j_interp::web::submitted_message;
use j_interp::web::BoundedLog;

#[test]
fn evaluation_requests_are_answered_in_json() {
    assert_eq!(j_eval_response("{\"expression\": \"~3+~3\"}"), "{\"result\": \"0 2 4\"}");
    assert_eq!(j_eval_response("expression=2+2%231+2+3+4"), "{\"result\": \"1 2\\n3 4\"}");
    assert_eq!(j_eval_response("1 2,3"), "{\"result\": \"1 2 3\"}");
    assert_eq!(j_eval_response("{}"), "{\"error\": \"No expression provided\"}");
    assert_eq!(j_eval_response("   "), "{\"error\": \"No expression provided\"}");
    assert_eq!(
        j_eval_response("expression=1%26"),
        "{\"result\": \"Token Error: Unknown character: &\"}"
    );
    assert_eq!(
        j_eval_response("1)"),
        "{\"result\": \"Custom Parse Error: Unexpected token ')' at position 1\"}"
    );
    assert_eq!(
        j_eval_response("1~2"),
        "{\"result\": \"Semantic Error: Invalid usage of verb '~': Dyadic ~ not supported in this implementation\"}"
    );
    assert_eq!(
        j_eval_response("7{1 2"),
        "{\"result\": \"Evaluation Error: Array error: Index out of bounds\"}"
    );
    assert_eq!(json_result("say \"hi\"\nnow"), "{\"result\": \"say \\\"hi\\\"\\nnow\"}");
}

#[test]
fn submitted_messages_are_decoded() {
    assert_eq!(submitted_message("message=hello+world%21"), Some("hello world!".to_string()));
    assert_eq!(submitted_message("message="), Some(String::new()));
    assert_eq!(submitted_message("text=hello"), None);
    assert_eq!(submitted_message(" message=hello"), None);
    assert_eq!(message_div("1 < 2"), "<div class=\"message\">1 &lt; 2</div>");
}

#[test]
fn the_log_keeps_the_newest_entries() {
    let mut log = BoundedLog::new(3);
    assert_eq!(log.len(), 0);
    assert_eq!(log.render(), "<div class=\"message-container\"></div>");
    for text in ["a", "b", "c", "d"] {
        log.add(text.to_string());
    }
    assert_eq!(log.len(), 3);
    assert_eq!(log.get(0), "d");
    assert_eq!(log.get(2), "b");
    assert_eq!(log.render(), "<div class=\"message-container\">b\nc\nd</div>");

    let mut none = BoundedLog::new(0);
    none.add("a".to_string());
    assert_eq!(none.len(), 0);

    let mut one = BoundedLog::new(1);
    one.add("a".to_string());
    one.add("b".to_string());
    assert_eq!(one.len(), 1);
    assert_eq!(one.get(0), "b");
}

#[test]
fn pages_are_filled_and_typed() {
    assert_eq!(fill_messages("<p>$MESSAGES$</p>", "hi"), "<p>hi</p>");
    assert_eq!(fill_messages("$MESSAGES$$MESSAGES$", "x"), "xx");
    assert_eq!(fill_messages("nothing here", "x"), "nothing here");
    assert_eq!(content_type_for(Some("html")), "text/html");
    assert_eq!(content_type_for(Some("css")), "text/css");
    assert_eq!(content_type_for(Some("js")), "application/javascript");
    assert_eq!(content_type_for(Some("png")), "application/octet-stream");
    assert_eq!(content_type_for(Some("htm")), "application/octet-stream");
    assert_eq!(content_type_for(None), "application/octet-stream");
}

#[test]
fn the_server_notes_what_it_evaluates() {
    let (json, notes) = j_eval_reply("expression=%7E3");
    assert_eq!(json, "{\"result\": \"0 1 2\"}");
    assert_eq!(
        notes,
        "Received body: expression=%7E3\nEvaluating: ~3 (using custom parser)\nExpression: ~3\nCustom Parse Tree:\nAmbiguousVerb: '~'\nRight:\n  Literal: 3\nResult: 0 1 2\n\n"
    );
    let (json, notes) = j_eval_reply("1)");
    assert_eq!(json, "{\"result\": \"Custom Parse Error: Unexpected token ')' at position 1\"}");
    assert_eq!(
        notes,
        "Received body: 1)\nEvaluating: 1) (using custom parser)\nExpression: 1)\nCustom Parse Error: Unexpected token ')' at position 1\n\n"
    );
    let (_, notes) = j_eval_reply("1~2");
    assert_eq!(
        notes,
        "Received body: 1~2\nEvaluating: 1~2 (using custom parser)\nExpression: 1~2\nCustom Parse Tree:\nAmbiguousVerb: '~'\nLeft:\n  Literal: 1\nRight:\n  Literal: 2\nSemantic Error: Invalid usage of verb '~': Dyadic ~ not supported in this implementation\n\n"
    );
    let (json, notes) = j_eval_reply("{}");
    assert_eq!(json, "{\"error\": \"No expression provided\"}");
    assert_eq!(notes, "Received body: {}\n");
    assert_eq!(j_eval_response("1\t2,3"), "{\"result\": \"Custom Parse Error: Unexpected token '2' at position 1\"}");
}
