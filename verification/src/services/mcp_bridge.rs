//! MCP (Model Context Protocol) bridge — JSON-RPC 2.0 adapter over the tools.
//!
//! External MCP clients can `tools/list` to discover capabilities and
//! `tools/call` to invoke them, with the same effect as calls of the local
//! model.

use vstd::prelude::*;
use vstd::utf8::is_ascii_chars;

use super::tools::{ascii_uppercase, uppercase, Call, ToolCall, ToolOutcome};
use crate::error::AppResult;
use crate::json::{array, item_values, object1, object2, object3, Json, JsonValue};
use crate::text::{blank, decimal_int, is_blank, opt_view, push_decimal_int, same};

verus! {

/// The request names a tool that cannot be called.
pub const INVALID_PARAMS: i64 = -32602;

/// The request names a method that does not exist.
pub const METHOD_NOT_FOUND: i64 = -32601;

/// The tool failed.
pub const TOOL_FAILED: i64 = -32000;

/// The request is no JSON.
pub const PARSE_ERROR: i64 = -32700;

/// A JSON-RPC 2.0 request.
#[derive(Debug)]
pub struct McpRequest {
    pub jsonrpc: String,
    pub id: Json,
    pub method: String,
    pub params: Json,
}

/// The protocol version of a request that gives none.
pub fn jsonrpc_version() -> (r: String)
    ensures
        r@ == "2.0"@,
{
    "2.0".to_string()
}

#[derive(Debug)]
pub struct McpError {
    pub code: i64,
    pub message: String,
}

/// A JSON-RPC 2.0 response (exactly one of `result` / `error` is set).
#[derive(Debug)]
pub struct McpResponse {
    pub jsonrpc: String,
    pub id: Json,
    pub result: Option<Json>,
    pub error: Option<McpError>,
}

/// What a response says: a result, or an error code and message.
pub enum Verdict {
    Success(JsonValue),
    Failure(int, Seq<char>),
}

impl McpResponse {
    /// The response is of the protocol's version, and exactly one of `result` and
    /// `error` is set.
    pub open spec fn wf(self) -> bool {
        &&& self.jsonrpc@ == "2.0"@
        &&& self.result is Some != self.error is Some
    }

    /// What the response says.
    pub open spec fn verdict(self) -> Verdict {
        match (self.result, self.error) {
            (_, Some(e)) => Verdict::Failure(e.code as int, e.message@),
            (Some(j), None) => Verdict::Success(j@),
            (None, None) => Verdict::Success(JsonValue::Null),
        }
    }

    pub fn ok(id: Json, result: Json) -> (r: Self)
        ensures
            r.wf(),
            r.id == id,
            r.verdict() == Verdict::Success(result@),
    {
        McpResponse { jsonrpc: "2.0".to_string(), id, result: Some(result), error: None }
    }

    pub fn error(id: Json, code: i64, message: String) -> (r: Self)
        ensures
            r.wf(),
            r.id == id,
            r.verdict() == Verdict::Failure(code as int, message@),
    {
        McpResponse {
            jsonrpc: "2.0".to_string(),
            id,
            result: None,
            error: Some(McpError { code, message }),
        }
    }
}

/// A tool as clients see it.
#[derive(Debug)]
pub struct ToolDescriptor {
    pub name: String,
    pub description: String,
}

/// The listing of one tool: its arguments are one string.
pub open spec fn listing(name: Seq<char>, description: Seq<char>) -> JsonValue {
    JsonValue::Object(
        seq![
            ("name"@, JsonValue::Text(name)),
            ("description"@, JsonValue::Text(description)),
            (
                "inputSchema"@,
                JsonValue::Object(
                    seq![
                        ("type"@, JsonValue::Text("object"@)),
                        (
                            "properties"@,
                            JsonValue::Object(
                                seq![
                                    (
                                        "args"@,
                                        JsonValue::Object(
                                            seq![("type"@, JsonValue::Text("string"@))],
                                        ),
                                    ),
                                ],
                            ),
                        ),
                    ],
                ),
            ),
        ],
    )
}

/// The listings of `tools`, in order.
pub open spec fn listings(tools: Seq<ToolDescriptor>) -> Seq<JsonValue> {
    tools.map_values(|t: ToolDescriptor| listing(t.name@, t.description@))
}

/// The name of the tool to call; empty if the request gives none.
pub open spec fn requested_name(params: JsonValue) -> Seq<char> {
    match params.field("name"@) {
        Some(j) => text_or_empty(j),
        None => Seq::empty(),
    }
}

/// The arguments for the tool; empty if the request gives none.
pub open spec fn requested_args(params: JsonValue) -> Seq<char> {
    match params.field("arguments"@) {
        Some(arguments) => match arguments.field("args"@) {
            Some(j) => text_or_empty(j),
            None => Seq::empty(),
        },
        None => Seq::empty(),
    }
}

/// The text of a string; empty for another value.
pub open spec fn text_or_empty(j: JsonValue) -> Seq<char> {
    match j.text() {
        Some(t) => t,
        None => Seq::empty(),
    }
}

/// What is to be done for a request.
#[derive(Debug)]
pub enum McpStep {
    /// Send this response.
    Reply(McpResponse),
    /// Carry out the call, and answer under `id` with what comes of it.
    Dispatch { id: Json, call: ToolCall },
}

/// The response to a listing of `tools`.
fn list_response(id: Json, tools: &Vec<ToolDescriptor>) -> (r: McpResponse)
    ensures
        r.wf(),
        r.id == id,
        r.verdict() == Verdict::Success(
            JsonValue::Object(seq![("tools"@, JsonValue::Array(listings(tools@)))]),
        ),
{
    let mut items: Vec<Json> = Vec::new();
    let mut i: usize = 0;
    while i < tools.len()
        invariant
            i <= tools.len(),
            items@.len() == i,
            forall|j: int|
                0 <= j < i ==> (#[trigger] items@[j])@ == listing(
                    tools@[j].name@,
                    tools@[j].description@,
                ),
        decreases tools.len() - i,
    {
        let args = object1("args", object1("type", Json::text("string")));
        let schema = object2("type", Json::text("object"), "properties", args);
        items.push(
            object3(
                "name",
                Json::text(tools[i].name.as_str()),
                "description",
                Json::text(tools[i].description.as_str()),
                "inputSchema",
                schema,
            ),
        );
        i += 1;
    }
    assert(item_values(items@) =~= listings(tools@));
    McpResponse::ok(id, object1("tools", array(items)))
}

/// The text of the field of `params` reached by `key`; empty if there is none.
fn text_at(params: &Json, key: &str) -> (r: String)
    ensures
        r@ == (match params@.field(key@) {
            Some(j) => text_or_empty(j),
            None => Seq::empty(),
        }),
{
    match params.get(key) {
        Some(j) => match j.as_str() {
            Some(t) => t.to_string(),
            None => String::new(),
        },
        None => String::new(),
    }
}

/// Adapt one MCP request to the tools. Supports `tools/list` and `tools/call`;
/// unknown methods get a JSON-RPC "method not found" error.
pub fn handle(req: McpRequest, tools: &Vec<ToolDescriptor>) -> (r: McpStep)
    ensures
        ({
            let name = requested_name(req.params@);
            if req.method@ == "tools/list"@ {
                r matches McpStep::Reply(resp) && resp.wf() && resp.id == req.id && resp.verdict()
                    == Verdict::Success(
                    JsonValue::Object(seq![("tools"@, JsonValue::Array(listings(tools@)))]),
                )
            } else if req.method@ == "tools/call"@ && name.len() > 0 {
                r matches McpStep::Dispatch { id, call } && id == req.id && call@ == (Call {
                    name: uppercase(name),
                    raw_args: requested_args(req.params@),
                }) && (is_ascii_chars(name) ==> call.name@ == ascii_uppercase(name))
            } else if req.method@ == "tools/call"@ {
                r matches McpStep::Reply(resp) && resp.wf() && resp.id == req.id && resp.verdict()
                    == Verdict::Failure(INVALID_PARAMS as int, "missing tool 'name'"@)
            } else {
                r matches McpStep::Reply(resp) && resp.wf() && resp.id == req.id && resp.verdict()
                    == Verdict::Failure(
                    METHOD_NOT_FOUND as int,
                    "method not found: "@ + req.method@,
                )
            }
        }),
{
    proof {
        reveal_strlit("tools/list");
        reveal_strlit("tools/call");
        assert("tools/list"@[6] == 'l');
        assert("tools/call"@[6] == 'c');
    }
    if same(req.method.as_str(), "tools/list") {
        return McpStep::Reply(list_response(req.id, tools));
    }
    if same(req.method.as_str(), "tools/call") {
        let name = text_at(&req.params, "name");
        if name.as_str().is_empty() {
            return McpStep::Reply(
                McpResponse::error(req.id, INVALID_PARAMS, "missing tool 'name'".to_string()),
            );
        }
        let raw_args = match req.params.get("arguments") {
            Some(arguments) => text_at(arguments, "args"),
            None => String::new(),
        };
        let call = ToolCall { name: name.as_str().to_uppercase(), raw_args };
        return McpStep::Dispatch { id: req.id, call };
    }
    McpStep::Reply(
        McpResponse::error(
            req.id,
            METHOD_NOT_FOUND,
            "method not found: ".to_string().concat(req.method.as_str()),
        ),
    )
}

/// What the model is to go on with, as a string; null if there is nothing.
pub open spec fn context_value(follow_up: Option<Seq<char>>) -> JsonValue {
    match follow_up {
        Some(context) => JsonValue::Text(context),
        None => JsonValue::Null,
    }
}

/// The result sent for a tool that succeeded.
pub open spec fn call_result(summary: Seq<char>, follow_up: Option<Seq<char>>) -> JsonValue {
    JsonValue::Object(
        seq![
            (
                "content"@,
                JsonValue::Array(
                    seq![
                        JsonValue::Object(
                            seq![
                                ("type"@, JsonValue::Text("text"@)),
                                ("text"@, JsonValue::Text(summary)),
                            ],
                        ),
                    ],
                ),
            ),
            ("follow_up"@, context_value(follow_up)),
        ],
    )
}

/// The response to a `tools/call`, once the tool has been carried out.
pub fn call_response(id: Json, result: AppResult<ToolOutcome>) -> (r: McpResponse)
    ensures
        r.wf(),
        r.id == id,
        r.verdict() == match result {
            Ok(outcome) => Verdict::Success(
                call_result(outcome.summary@, opt_view(outcome.follow_up)),
            ),
            Err(e) => Verdict::Failure(TOOL_FAILED as int, e.says()),
        },
{
    match result {
        Ok(outcome) => {
            let ghost context = opt_view(outcome.follow_up);
            let item = object2(
                "type",
                Json::text("text"),
                "text",
                Json::text(outcome.summary.as_str()),
            );
            let mut items: Vec<Json> = Vec::new();
            items.push(item);
            assert(item_values(items@) =~= seq![item@]);
            let content = array(items);
            let follow_up = match outcome.follow_up {
                Some(context) => Json::text(context.as_str()),
                None => Json::Null,
            };
            assert(follow_up@ == context_value(context));
            let body = object2("content", content, "follow_up", follow_up);
            McpResponse::ok(id, body)
        },
        Err(e) => McpResponse::error(id, TOOL_FAILED, e.message()),
    }
}

/// What is to be done for one line of a connection.
#[derive(Debug)]
pub enum Line {
    /// The line is blank.
    Skip,
    /// The line is no request: send this value.
    Refuse(Json),
    /// Handle this request.
    Request(McpRequest),
}

/// The value sent for a line that is no request: the id is unknown, hence null.
pub open spec fn refusal(why: Seq<char>) -> JsonValue {
    JsonValue::Object(
        seq![
            ("jsonrpc"@, JsonValue::Text("2.0"@)),
            ("id"@, JsonValue::Null),
            (
                "error"@,
                JsonValue::Object(
                    seq![
                        ("code"@, JsonValue::Number(decimal_int(PARSE_ERROR as int))),
                        ("message"@, JsonValue::Text("parse error: "@ + why)),
                    ],
                ),
            ),
        ],
    )
}

/// What is to be done for one line, given what a JSON parser made of it.
pub fn on_line(line: &str, parsed: Result<McpRequest, String>) -> (r: Line)
    ensures
        if blank(line@) {
            r is Skip
        } else {
            match parsed {
                Ok(req) => r == Line::Request(req),
                Err(why) => r matches Line::Refuse(body) && body@ == refusal(why@),
            }
        },
{
    if is_blank(line) {
        return Line::Skip;
    }
    match parsed {
        Ok(req) => Line::Request(req),
        Err(why) => {
            let mut code = String::new();
            push_decimal_int(&mut code, PARSE_ERROR);
            assert(code@ =~= decimal_int(PARSE_ERROR as int));
            let message = "parse error: ".to_string().concat(why.as_str());
            let error = object2("code", Json::Number(code), "message", Json::Text(message));
            Line::Refuse(
                object3("jsonrpc", Json::text("2.0"), "id", Json::Null, "error", error),
            )
        },
    }
}

// ---------------------------------------------------------------------------
// Laws
// ---------------------------------------------------------------------------

/// Each tool is listed, in order, with its whole name and description, and with one
/// string as its arguments.
pub proof fn law_every_tool_is_listed(tools: Seq<ToolDescriptor>)
    ensures
        listings(tools).len() == tools.len(),
        forall|i: int|
            0 <= i < tools.len() ==> {
                &&& #[trigger] listings(tools)[i] matches JsonValue::Object(fields)
                &&& fields.len() == 3
                &&& fields[0] == ("name"@, JsonValue::Text(tools[i].name@))
                &&& fields[1] == ("description"@, JsonValue::Text(tools[i].description@))
                &&& fields[2].0 == "inputSchema"@
                &&& fields[2].1 matches JsonValue::Object(schema)
                &&& schema.len() == 2
                &&& schema[0] == ("type"@, JsonValue::Text("object"@))
                &&& schema[1].0 == "properties"@
                &&& schema[1].1 matches JsonValue::Object(properties)
                &&& properties.len() == 1
                &&& properties[0].0 == "args"@
                &&& properties[0].1 matches JsonValue::Object(args)
                &&& args.len() == 1
                &&& args[0] == ("type"@, JsonValue::Text("string"@))
            },
{
}

/// The name and the arguments of a call are the strings that the request gives for
/// them, in full; whatever else it gives counts as nothing.
pub proof fn law_request_is_read_as_given(params: JsonValue)
    ensures
        requested_name(params) == (match params.field("name"@) {
            Some(JsonValue::Text(t)) => t,
            _ => Seq::empty(),
        }),
        requested_args(params) == (match params.field("arguments"@) {
            Some(arguments) => match arguments.field("args"@) {
                Some(JsonValue::Text(t)) => t,
                _ => Seq::empty(),
            },
            None => Seq::empty(),
        }),
{
}

/// The answer to a call holds the tool's whole summary, as its one piece of content,
/// and its whole context, or null.
pub proof fn law_answer_holds_the_outcome(summary: Seq<char>, follow_up: Option<Seq<char>>)
    ensures
        call_result(summary, follow_up) matches JsonValue::Object(fields) && {
            &&& fields.len() == 2
            &&& fields[0].0 == "content"@
            &&& fields[0].1 matches JsonValue::Array(content)
            &&& content.len() == 1
            &&& content[0] matches JsonValue::Object(piece)
            &&& piece.len() == 2
            &&& piece[0] == ("type"@, JsonValue::Text("text"@))
            &&& piece[1] == ("text"@, JsonValue::Text(summary))
            &&& fields[1].0 == "follow_up"@
            &&& match follow_up {
                Some(context) => fields[1].1 == JsonValue::Text(context),
                None => fields[1].1 == JsonValue::Null,
            }
        },
{
}

/// A line that is no request is refused without an id, with the code of a parse error
/// and the whole reason.
pub proof fn law_refusal_tells_why(why: Seq<char>)
    ensures
        refusal(why) matches JsonValue::Object(fields) && {
            &&& fields.len() == 3
            &&& fields[0] == ("jsonrpc"@, JsonValue::Text("2.0"@))
            &&& fields[1] == ("id"@, JsonValue::Null)
            &&& fields[2].0 == "error"@
            &&& fields[2].1 matches JsonValue::Object(error)
            &&& error.len() == 2
            &&& error[0] == ("code"@, JsonValue::Number(decimal_int(-32700)))
            &&& error[1] == ("message"@, JsonValue::Text("parse error: "@ + why))
        },
        INVALID_PARAMS == -32602,
        METHOD_NOT_FOUND == -32601,
        TOOL_FAILED == -32000,
{
}

/// A response is of the protocol's version and has either a result or an error; it
/// says the whole of what it has.
pub proof fn law_response_says_what_it_has(r: McpResponse)
    ensures
        r.wf() <==> r.jsonrpc@ == "2.0"@ && (r.result is Some) != (r.error is Some),
        r.result is Some && r.error is None ==> r.verdict() == Verdict::Success(r.result->0@),
        r.error is Some ==> r.verdict() == Verdict::Failure(
            r.error->0.code as int,
            r.error->0.message@,
        ),
{
}

} // verus!
