//! The protocol that the tools are called by: JSON-RPC, one message a line.

use crate::ctl::value_result;
use crate::json::{
    array, as_str, compact_text, display, display_text, empty_object, empty_value, get, get_text,
    is_null, json_of, json_parsed, json_pretty, jsons_of, member, null, number, parse_value,
    pretty_text, str_value, string_value, text_member, whole, with_member, Json,
};
use crate::text::{after_prefix, is_blank, same_text, starts_with, trim};
use crate::tools::{tools_json, tools_list};
use serde_json::Value;
use vstd::prelude::*;

verus! {

/// The version of the extension.
pub const VERSION: &'static str = "1.0.0";

// ---------------------------------------------------------------------------
// Envelopes
// ---------------------------------------------------------------------------

/// The response to the request `id`.
pub open spec fn success_json(id: Json, result: Json) -> Json {
    empty_object().with("jsonrpc"@, Json::Text("2.0"@)).with("id"@, id).with("result"@, result)
}

/// The response to the request `id`.
pub fn success(id: Value, result: Value) -> (response: Value)
    ensures
        json_of(response) == success_json(json_of(id), json_of(result)),
{
    let response = with_member(empty_value(), "jsonrpc", str_value("2.0"));
    with_member(with_member(response, "id", id), "result", result)
}

/// The error that answers the request `id`.
pub open spec fn error_json(id: Json, code: int, message: Seq<char>) -> Json {
    empty_object().with("jsonrpc"@, Json::Text("2.0"@)).with("id"@, id).with(
        "error"@,
        empty_object().with("code"@, number(code)).with("message"@, Json::Text(message)),
    )
}

/// The error that answers the request `id`.
pub fn error_response(id: Value, code: i32, message: String) -> (response: Value)
    ensures
        json_of(response) == error_json(json_of(id), code as int, message@),
{
    let error = with_member(empty_value(), "code", whole(code as i64));
    let error = with_member(error, "message", string_value(message));
    let response = with_member(empty_value(), "jsonrpc", str_value("2.0"));
    with_member(with_member(response, "id", id), "error", error)
}

/// The text that a result is shown as: of a string its content, of any other value its JSON over
/// several lines.
pub open spec fn shown(json: Json) -> Seq<char> {
    match json {
        Json::Text(text) => text,
        _ => json_pretty(json),
    }
}

/// A text, as the content of a response.
pub open spec fn content_json(text: Seq<char>) -> Json {
    empty_object().with(
        "content"@,
        Json::Array(
            seq![
                empty_object().with("type"@, Json::Text("text"@)).with("text"@, Json::Text(text)),
            ],
        ),
    )
}

/// A text, as the content of a response.
pub fn content_of(text: String) -> (content: Value)
    ensures
        json_of(content) == content_json(text@),
{
    let part = with_member(empty_value(), "type", str_value("text"));
    let part = with_member(part, "text", string_value(text));
    let mut parts: Vec<Value> = Vec::new();
    parts.push(part);
    assert(jsons_of(parts@) =~= seq![json_of(part)]);
    with_member(empty_value(), "content", array(parts))
}

/// A result, as the content of a response.
pub fn text_content(value: &Value) -> (content: Value)
    ensures
        json_of(content) == content_json(shown(json_of(*value))),
{
    let text = match as_str(value) {
        Some(text) => text.to_string(),
        None => match pretty_text(value) {
            Some(text) => text,
            None => display_text(value),
        },
    };
    content_of(text)
}

// ---------------------------------------------------------------------------
// Requests
// ---------------------------------------------------------------------------

/// What a request leads to.
#[derive(Debug)]
pub enum Handling {
    /// A response; null where none is to be sent.
    Respond { response: Value },
    /// A call of a tool, whose result answers the request `id`.
    Call { id: Value, tool: String, arguments: Value },
}

/// What a request leads to.
pub enum HandlingModel {
    Respond { response: Json },
    Call { id: Json, tool: Seq<char>, arguments: Json },
}

impl View for Handling {
    type V = HandlingModel;

    open spec fn view(&self) -> HandlingModel {
        match *self {
            Handling::Respond { response } => HandlingModel::Respond {
                response: json_of(response),
            },
            Handling::Call { id, tool, arguments } => HandlingModel::Call {
                id: json_of(id),
                tool: tool@,
                arguments: json_of(arguments),
            },
        }
    }
}

/// The member `key`, or `default` where there is none.
pub open spec fn member_or(json: Json, key: Seq<char>, default: Json) -> Json {
    match member(json, key) {
        Some(value) => value,
        None => default,
    }
}

/// The text under `key`, or nothing where there is none.
pub open spec fn text_or_empty(json: Json, key: Seq<char>) -> Seq<char> {
    match text_member(json, key) {
        Some(text) => text,
        None => seq![],
    }
}

/// What the server says of itself.
pub open spec fn introduction() -> Json {
    empty_object().with("protocolVersion"@, Json::Text("2025-06-18"@)).with(
        "capabilities"@,
        empty_object().with("tools"@, empty_object()),
    ).with(
        "serverInfo"@,
        empty_object().with("name"@, Json::Text("morph-freetoken"@)).with(
            "version"@,
            Json::Text(VERSION@),
        ),
    )
}

/// What a request leads to.
pub open spec fn handling_of(request: Json) -> HandlingModel {
    let id = member_or(request, "id"@, Json::Null);
    let method = text_or_empty(request, "method"@);
    if method == "initialize"@ {
        HandlingModel::Respond { response: success_json(id, introduction()) }
    } else if method == "tools/list"@ {
        HandlingModel::Respond { response: success_json(id, tools_json()) }
    } else if method == "tools/call"@ {
        let params = member_or(request, "params"@, empty_object());
        HandlingModel::Call {
            id,
            tool: text_or_empty(params, "name"@),
            arguments: member_or(params, "arguments"@, empty_object()),
        }
    } else if starts_with(method, "notifications/"@) {
        HandlingModel::Respond { response: Json::Null }
    } else {
        HandlingModel::Respond {
            response: error_json(id, -32601, "méthode MCP inconnue : "@ + method),
        }
    }
}

/// The text under `key`, or nothing where there is none.
fn get_text_or_empty(value: &Value, key: &str) -> (text: String)
    ensures
        text@ == text_or_empty(json_of(*value), key@),
{
    match get_text(value, key) {
        Some(text) => text.to_string(),
        None => {
            let text = String::new();
            assert(text@ =~= seq![]);
            text
        },
    }
}

/// The member `key`, or an object without members where there is none.
fn get_or_empty(value: &Value, key: &str) -> (found: Value)
    ensures
        json_of(found) == member_or(json_of(*value), key@, empty_object()),
{
    match get(value, key) {
        Some(found) => found.clone(),
        None => empty_value(),
    }
}

/// What the server says of itself.
fn introduction_value() -> (value: Value)
    ensures
        json_of(value) == introduction(),
{
    let capabilities = with_member(empty_value(), "tools", empty_value());
    let server = with_member(empty_value(), "name", str_value("morph-freetoken"));
    let server = with_member(server, "version", str_value(VERSION));
    let value = with_member(empty_value(), "protocolVersion", str_value("2025-06-18"));
    let value = with_member(value, "capabilities", capabilities);
    with_member(value, "serverInfo", server)
}

/// What a request leads to.
pub fn handle_request(request: &Value) -> (handling: Handling)
    ensures
        handling@ == handling_of(json_of(*request)),
{
    let id = match get(request, "id") {
        Some(id) => id.clone(),
        None => null(),
    };
    let method = get_text_or_empty(request, "method");
    if same_text(method.as_str(), "initialize") {
        Handling::Respond { response: success(id, introduction_value()) }
    } else if same_text(method.as_str(), "tools/list") {
        Handling::Respond { response: success(id, tools_list()) }
    } else if same_text(method.as_str(), "tools/call") {
        let params = get_or_empty(request, "params");
        Handling::Call {
            id,
            tool: get_text_or_empty(&params, "name"),
            arguments: get_or_empty(&params, "arguments"),
        }
    } else if after_prefix(method.as_str(), "notifications/").is_some() {
        Handling::Respond { response: null() }
    } else {
        let mut message = "méthode MCP inconnue : ".to_string();
        message.append(method.as_str());
        Handling::Respond { response: error_response(id, -32601, message) }
    }
}

/// What the result of a call answers the request `id` with.
pub open spec fn call_json(id: Json, result: Result<Json, Seq<char>>) -> Json {
    match result {
        Ok(value) => success_json(id, content_json(shown(value))),
        Err(message) => error_json(id, -32000, message),
    }
}

/// What the result of a call answers the request `id` with.
pub fn call_response(id: Value, result: Result<Value, String>) -> (response: Value)
    ensures
        json_of(response) == call_json(json_of(id), value_result(result)),
{
    match result {
        Ok(value) => success(id, text_content(&value)),
        Err(message) => error_response(id, -32000, message),
    }
}

// ---------------------------------------------------------------------------
// Lines
// ---------------------------------------------------------------------------

/// What a line that was read as `parsed` leads to.
pub open spec fn parsed_handling(parsed: Result<Json, Seq<char>>) -> HandlingModel {
    match parsed {
        Ok(request) => handling_of(request),
        Err(message) => HandlingModel::Respond {
            response: error_json(Json::Null, -32700, "JSON invalide : "@ + message),
        },
    }
}

/// What a line that was read as `parsed` leads to.
pub fn handle_parsed(parsed: Result<Value, String>) -> (handling: Handling)
    ensures
        handling@ == parsed_handling(value_result(parsed)),
{
    match parsed {
        Ok(request) => handle_request(&request),
        Err(error) => {
            let mut message = "JSON invalide : ".to_string();
            message.append(error.as_str());
            Handling::Respond { response: error_response(null(), -32700, message) }
        },
    }
}

/// What a line leads to. A blank line leads to nothing.
pub fn handle_line(line: &str) -> (handling: Option<Handling>)
    ensures
        handling is None <==> trim(line@).len() == 0,
        handling matches Some(handling) ==> handling@ == parsed_handling(json_parsed(line@)),
{
    if is_blank(line) {
        None
    } else {
        Some(handle_parsed(parse_value(line)))
    }
}

/// The line that a response is sent as, if it is to be sent. It holds no line break, so that
/// the next line is the next message.
pub fn response_line(response: &Value) -> (line: Option<String>)
    ensures
        line is None <==> json_of(*response) is Null,
        line matches Some(line) ==> line@ == display(json_of(*response)) && !line@.contains('\n'),
{
    if is_null(response) {
        None
    } else {
        compact_text(response)
    }
}

// ---------------------------------------------------------------------------
// Laws
// ---------------------------------------------------------------------------

/// The response `json` answers the request `id`, with a result or with an error.
pub open spec fn answers(json: Json, id: Json) -> bool {
    &&& member(json, "jsonrpc"@) == Some(Json::Text("2.0"@))
    &&& member(json, "id"@) == Some(id)
    &&& member(json, "result"@) is Some != member(json, "error"@) is Some
}

/// The members of a response have names of their own.
proof fn lemma_envelope_names()
    ensures
        "jsonrpc"@ != "id"@,
        "jsonrpc"@ != "result"@,
        "jsonrpc"@ != "error"@,
        "id"@ != "result"@,
        "id"@ != "error"@,
        "result"@ != "error"@,
{
    reveal_strlit("jsonrpc");
    reveal_strlit("id");
    reveal_strlit("result");
    reveal_strlit("error");
    assert("jsonrpc"@.len() == 7 && "id"@.len() == 2);
    assert("result"@.len() == 6 && "error"@.len() == 5);
}

/// A success answers its request.
proof fn lemma_success_answers(id: Json, result: Json)
    ensures
        answers(success_json(id, result), id),
        member(success_json(id, result), "result"@) == Some(result),
{
    lemma_envelope_names();
}

/// An error answers its request.
proof fn lemma_error_answers(id: Json, code: int, message: Seq<char>)
    ensures
        answers(error_json(id, code, message), id),
        member(error_json(id, code, message), "error"@) is Some,
{
    lemma_envelope_names();
}

/// Every response carries the `id` of its request, null where the request has none, and holds
/// either a result or an error. So does the response to a call, whatever came of it.
pub proof fn law_response_carries_the_id(request: Json, result: Result<Json, Seq<char>>)
    ensures
        ({
            let id = member_or(request, "id"@, Json::Null);
            match handling_of(request) {
                HandlingModel::Respond { response } => response is Null || answers(response, id),
                HandlingModel::Call { id: called, .. } => called == id && answers(
                    call_json(id, result),
                    id,
                ),
            }
        }),
{
    let id = member_or(request, "id"@, Json::Null);
    let method = text_or_empty(request, "method"@);
    lemma_success_answers(id, introduction());
    lemma_success_answers(id, tools_json());
    lemma_error_answers(id, -32601, "méthode MCP inconnue : "@ + method);
    match result {
        Ok(value) => lemma_success_answers(id, content_json(shown(value))),
        Err(message) => lemma_error_answers(id, -32000, message),
    }
}

/// A notification is not answered, and nothing else goes unanswered.
pub proof fn law_notifications_alone_are_silent(request: Json)
    ensures
        handling_of(request) == (HandlingModel::Respond { response: Json::Null }) <==> starts_with(
            text_or_empty(request, "method"@),
            "notifications/"@,
        ),
{
    reveal_strlit("notifications/");
    reveal_strlit("initialize");
    reveal_strlit("tools/list");
    reveal_strlit("tools/call");
    let method = text_or_empty(request, "method"@);
    if starts_with(method, "notifications/"@) {
        assert(method.take(14)[0] == 'n');
        assert(method[0] == 'n');
        assert("initialize"@[0] == 'i');
        assert("tools/list"@[0] == 't');
        assert("tools/call"@[0] == 't');
    }
}

/// A line that is no JSON is answered with an error that says why.
pub proof fn law_unreadable_line_is_answered(message: Seq<char>)
    ensures
        parsed_handling(Err(message)) matches HandlingModel::Respond { response } && answers(
            response,
            Json::Null,
        ) && member(response, "error"@) is Some,
{
    lemma_error_answers(Json::Null, -32700, "JSON invalide : "@ + message);
}

/// A call hands on the tool that it names and the arguments that it gives, as they are, for the
/// request of its `id`. Where it names no tool, or gives no arguments, none are handed on.
pub proof fn law_call_hands_on_tool_and_arguments(request: Json)
    requires
        text_member(request, "method"@) == Some("tools/call"@),
    ensures
        ({
            let params = member(request, "params"@);
            let given = member(params->0, "arguments"@);
            let named = text_member(params->0, "name"@);
            &&& handling_of(request) matches HandlingModel::Call { id, tool, arguments }
            &&& member(request, "id"@) matches Some(known) ==> id == known
            &&& member(request, "id"@) is None ==> id == Json::Null
            &&& params is Some && named is Some ==> tool == named->0
            &&& params is None || named is None ==> tool.len() == 0
            &&& params is Some && given is Some ==> arguments == given->0
            &&& params is None || given is None ==> arguments == empty_object()
        }),
{
    reveal_strlit("initialize");
    reveal_strlit("tools/list");
    reveal_strlit("tools/call");
    assert("initialize"@[0] == 'i' && "tools/call"@[0] == 't');
    assert("tools/list"@[6] == 'l' && "tools/call"@[6] == 'c');
}

/// The members of an error and of a part of a content.
proof fn lemma_inner_members(code: int, message: Seq<char>, text: Seq<char>)
    ensures
        ({
            let error = empty_object().with("code"@, number(code)).with(
                "message"@,
                Json::Text(message),
            );
            let part = empty_object().with("type"@, Json::Text("text"@)).with(
                "text"@,
                Json::Text(text),
            );
            &&& member(error, "code"@) == Some(number(code))
            &&& member(error, "message"@) == Some(Json::Text(message))
            &&& member(part, "type"@) == Some(Json::Text("text"@))
            &&& member(part, "text"@) == Some(Json::Text(text))
        }),
{
    reveal_strlit("code");
    reveal_strlit("message");
    reveal_strlit("type");
    reveal_strlit("text");
    assert("code"@.len() == 4 && "message"@.len() == 7);
    assert("type"@[1] == 'y' && "text"@[1] == 'e');
}

/// What came of a call is answered whole: a result as one text, of a string its content and of any
/// other value its JSON over several lines, and what went wrong as the message of an error.
pub proof fn law_result_of_a_call_is_answered(id: Json, result: Json, message: Seq<char>)
    ensures
        ({
            let good = call_json(id, Ok(result));
            let bad = call_json(id, Err(message));
            &&& member(good, "id"@) == Some(id) && member(bad, "id"@) == Some(id)
            &&& member(good, "result"@) matches Some(answer)
            &&& member(answer, "content"@) matches Some(Json::Array(parts))
            &&& parts.len() == 1
            &&& member(parts[0], "type"@) == Some(Json::Text("text"@))
            &&& result matches Json::Text(text) ==> member(parts[0], "text"@) == Some(
                Json::Text(text),
            )
            &&& !(result is Text) ==> member(parts[0], "text"@) == Some(
                Json::Text(json_pretty(result)),
            )
            &&& member(bad, "result"@) is None
            &&& member(bad, "error"@) matches Some(error)
            &&& member(error, "code"@) == Some(Json::Negative(-32000))
            &&& member(error, "message"@) == Some(Json::Text(message))
        }),
{
    lemma_envelope_names();
    lemma_inner_members(-32000, message, shown(result));
}

/// The first request is answered with the version of the protocol, the tools as all that is
/// offered, and the name and the version of the server. The request for the tools is answered with
/// their list.
pub proof fn law_server_introduces_itself(request: Json)
    ensures
        text_member(request, "method"@) == Some("initialize"@) ==> {
            &&& handling_of(request) matches HandlingModel::Respond { response }
            &&& member(response, "result"@) matches Some(said)
            &&& member(said, "protocolVersion"@) == Some(Json::Text("2025-06-18"@))
            &&& member(said, "capabilities"@) matches Some(offered)
            &&& member(offered, "tools"@) == Some(empty_object())
            &&& member(said, "serverInfo"@) matches Some(server)
            &&& member(server, "name"@) == Some(Json::Text("morph-freetoken"@))
            &&& member(server, "version"@) == Some(Json::Text("1.0.0"@))
        },
        text_member(request, "method"@) == Some("tools/list"@) ==> {
            &&& handling_of(request) matches HandlingModel::Respond { response }
            &&& member(response, "result"@) == Some(tools_json())
        },
{
    reveal_strlit("initialize");
    reveal_strlit("tools/list");
    assert("initialize"@[0] == 'i' && "tools/list"@[0] == 't');
    reveal_strlit("protocolVersion");
    reveal_strlit("capabilities");
    reveal_strlit("serverInfo");
    reveal_strlit("name");
    reveal_strlit("version");
    assert("protocolVersion"@.len() == 15 && "capabilities"@.len() == 12);
    assert("serverInfo"@.len() == 10 && "name"@.len() == 4 && "version"@.len() == 7);
    lemma_envelope_names();
}

/// A method that the server does not know is answered with an error that names it, and a line that
/// is no JSON with an error that says why, each with a code of its own.
pub proof fn law_errors_say_what_is_wrong(request: Json, method: Seq<char>, message: Seq<char>)
    requires
        text_member(request, "method"@) == Some(method),
        method != "initialize"@,
        method != "tools/list"@,
        method != "tools/call"@,
        !starts_with(method, "notifications/"@),
    ensures
        ({
            &&& handling_of(request) matches HandlingModel::Respond { response: unknown }
            &&& member(unknown, "error"@) matches Some(error)
            &&& member(error, "code"@) == Some(Json::Negative(-32601))
            &&& member(error, "message"@) matches Some(Json::Text(said))
            &&& said.len() >= method.len()
            &&& said.skip(said.len() - method.len()) == method
            &&& parsed_handling(Err(message)) matches HandlingModel::Respond { response: unread }
            &&& member(unread, "id"@) == Some(Json::Null)
            &&& member(unread, "error"@) matches Some(unread_error)
            &&& member(unread_error, "code"@) == Some(Json::Negative(-32700))
            &&& member(unread_error, "message"@) matches Some(Json::Text(why))
            &&& why.len() >= message.len()
            &&& why.skip(why.len() - message.len()) == message
            &&& parsed_handling(Ok(request)) == handling_of(request)
        }),
{
    lemma_envelope_names();
    let said = "méthode MCP inconnue : "@ + method;
    let why = "JSON invalide : "@ + message;
    lemma_inner_members(-32601, said, seq![]);
    lemma_inner_members(-32700, why, seq![]);
    assert(said.skip(said.len() - method.len()) =~= method);
    assert(why.skip(why.len() - message.len()) =~= message);
}

/// What a handling stands for holds the response, or the call with its tool and its arguments.
pub proof fn law_handling_is_held_whole(id: Value, tool: String, value: Value)
    ensures
        (Handling::Respond { response: value })@ == (HandlingModel::Respond {
            response: json_of(value),
        }),
        (Handling::Call { id, tool, arguments: value })@ == (HandlingModel::Call {
            id: json_of(id),
            tool: tool@,
            arguments: json_of(value),
        }),
{
}

} // verus!
