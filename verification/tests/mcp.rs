use locaryn_plugin_freetoken::mcp::{
    call_response, error_response, handle_line, handle_request, response_line, success,
    text_content, Handling,
};
use locaryn_plugin_freetoken::tools::tools_list;
use serde_json::Value;

fn json(text: &str) -> Value {
    serde_json::from_str(text).unwrap()
}

fn response(line: &str) -> Value {
    match handle_line(line) {
        Some(Handling::Respond { response }) => response,
        other => panic!("{:?}", other),
    }
}

#[test]
fn blank_lines_are_passed_over() {
    assert!(handle_line("").is_none());
    assert!(handle_line(" \t\u{a0}").is_none());
}

#[test]
fn the_server_introduces_itself() {
    let expected = r#"{"jsonrpc":"2.0","id":7,"result":{"protocolVersion":"2025-06-18",
        "capabilities":{"tools":{}},"serverInfo":{"name":"morph-freetoken","version":"1.0.0"}}}"#;
    assert_eq!(response(r#"{"id":7,"method":"initialize"}"#), json(expected));
}

#[test]
fn the_list_answers_its_request() {
    let answer = response(r#"{"id":"x","method":"tools/list"}"#);
    assert_eq!(answer, success(json("\"x\""), tools_list()));
}

#[test]
fn calls_are_read() {
    let line = r#"{"id":[1],"method":"tools/call","params":{"name":"t","arguments":{"a":1}}}"#;
    match handle_line(line) {
        Some(Handling::Call { id, tool, arguments }) => {
            assert_eq!(id, json("[1]"));
            assert_eq!(tool, "t");
            assert_eq!(arguments, json(r#"{"a":1}"#));
        }
        other => panic!("{:?}", other),
    }
    for line in [
        r#"{"method":"tools/call"}"#,
        r#"{"method":"tools/call","params":{"name":3}}"#,
        r#"{"method":"tools/call","params":"p"}"#,
    ] {
        match handle_request(&json(line)) {
            Handling::Call { id, tool, arguments } => {
                assert!(id.is_null());
                assert_eq!(tool, "");
                assert_eq!(arguments, json("{}"));
            }
            other => panic!("{:?}", other),
        }
    }
}

#[test]
fn notifications_are_silent() {
    let silent = response(r#"{"id":1,"method":"notifications/initialized"}"#);
    assert!(silent.is_null());
    assert_eq!(response_line(&silent), None);
}

#[test]
fn unknown_methods_are_refused() {
    for (line, method) in [
        (r#"{"id":1,"method":"notifications"}"#, "notifications"),
        (r#"{"id":1,"method":"ping"}"#, "ping"),
        (r#"{"id":1}"#, ""),
    ] {
        let expected = format!(
            r#"{{"jsonrpc":"2.0","id":1,"error":{{"code":-32601,"message":"méthode MCP inconnue : {method}"}}}}"#
        );
        assert_eq!(response(line), json(&expected));
    }
    assert_eq!(response("3")["error"]["code"].as_i64(), Some(-32601));
}

#[test]
fn what_is_no_json_is_answered() {
    let error = serde_json::from_str::<Value>("{oops").unwrap_err();
    let answer = response("{oops");
    assert!(answer["id"].is_null());
    assert_eq!(answer["error"]["code"].as_i64(), Some(-32700));
    assert_eq!(
        answer["error"]["message"].as_str(),
        Some(format!("JSON invalide : {error}").as_str())
    );
}

#[test]
fn results_are_shown_as_text() {
    let value = json(r#"{"b":[1,2],"a":"x"}"#);
    let content = text_content(&value);
    assert_eq!(content["content"][0]["type"].as_str(), Some("text"));
    assert_eq!(
        content["content"][0]["text"].as_str(),
        Some(serde_json::to_string_pretty(&value).unwrap().as_str())
    );
    assert_eq!(content["content"].as_array().unwrap().len(), 1);
    let plain = text_content(&json("\"as it \\n is\""));
    assert_eq!(plain["content"][0]["text"].as_str(), Some("as it \n is"));
}

#[test]
fn calls_are_answered() {
    let ok = call_response(json("5"), Ok(json("\"done\"")));
    assert_eq!(
        ok,
        json(r#"{"jsonrpc":"2.0","id":5,"result":{"content":[{"type":"text","text":"done"}]}}"#)
    );
    let failed = call_response(Value::Null, Err("no".to_string()));
    assert_eq!(failed, error_response(Value::Null, -32000, "no".to_string()));
    assert_eq!(
        failed,
        json(r#"{"jsonrpc":"2.0","id":null,"error":{"code":-32000,"message":"no"}}"#)
    );
}

#[test]
fn a_response_is_one_line() {
    let answer = call_response(json("1"), Ok(json(r#"{"a":"x\ny","b":[true,-1,2.5]}"#)));
    let line = response_line(&answer).unwrap();
    assert!(!line.contains('\n'));
    assert_eq!(line, serde_json::to_string(&answer).unwrap());
    assert_eq!(json(&line), answer);
}
