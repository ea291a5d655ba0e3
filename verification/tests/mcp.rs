use kensho::error::AppError;
use kensho::json::{array, object, Json};
use kensho::services::mcp_bridge::{
    call_response, handle, jsonrpc_version, on_line, Line, McpRequest, McpResponse, McpStep,
    ToolDescriptor,
};
use kensho::services::tools::{ToolExecutor, ToolOutcome, ToolStep};

fn tools() -> Vec<ToolDescriptor> {
    ["ADD_TASK", "RECALL", "CMD"]
        .iter()
        .map(|name| ToolDescriptor {
            name: name.to_string(),
            description: format!("sobre {name}"),
        })
        .collect()
}

fn req(method: &str, params: Json) -> McpRequest {
    McpRequest {
        jsonrpc: jsonrpc_version(),
        id: Json::Number("1".to_string()),
        method: method.to_string(),
        params,
    }
}

fn call_params(name: &str, args: &str) -> Json {
    object(vec![
        ("name".to_string(), Json::text(name)),
        ("arguments".to_string(), object(vec![("args".to_string(), Json::text(args))])),
    ])
}

fn items(j: &Json) -> &Vec<Json> {
    match j {
        Json::Array(items) => items,
        _ => panic!("no array"),
    }
}

fn reply(step: McpStep) -> McpResponse {
    match step {
        McpStep::Reply(r) => {
            assert_eq!(r.jsonrpc, "2.0");
            assert!(matches!(&r.id, Json::Number(n) if n == "1"));
            assert_ne!(r.result.is_some(), r.error.is_some());
            r
        }
        McpStep::Dispatch { .. } => panic!("a reply was expected"),
    }
}

#[test]
fn tools_list_exposes_router() {
    let resp = reply(handle(req("tools/list", Json::Null), &tools()));
    let result = resp.result.expect("result");
    let names: Vec<String> = items(result.get("tools").unwrap())
        .iter()
        .map(|t| t.get("name").unwrap().as_str().unwrap().to_string())
        .collect();
    assert!(names.contains(&"ADD_TASK".to_string()));
    assert!(names.contains(&"RECALL".to_string()));
    assert!(names.contains(&"CMD".to_string()));
    let first = &items(result.get("tools").unwrap())[0];
    assert_eq!(first.get("description").unwrap().as_str(), Some("sobre ADD_TASK"));
    let schema = first.get("inputSchema").unwrap();
    assert_eq!(schema.get("type").unwrap().as_str(), Some("object"));
    let args = schema.get("properties").unwrap().get("args").unwrap();
    assert_eq!(args.get("type").unwrap().as_str(), Some("string"));
}

#[test]
fn tools_call_routes_to_router() {
    let params = call_params("add_task", "Comprar pão|2026-06-20");
    let (id, call) = match handle(req("tools/call", params), &tools()) {
        McpStep::Dispatch { id, call } => (id, call),
        McpStep::Reply(_) => panic!("a call was expected"),
    };
    assert_eq!(call.name, "ADD_TASK");
    assert_eq!(call.raw_args, "Comprar pão|2026-06-20");
    let summary = match ToolExecutor::execute(call) {
        ToolStep::Store { summary, .. } => summary,
        ToolStep::Reply(_) => panic!("a task was to be stored"),
    };
    let resp = call_response(id, Ok(ToolOutcome { summary, follow_up: None }));
    let result = resp.result.expect("result");
    let text = items(result.get("content").unwrap())[0].get("text").unwrap().as_str().unwrap();
    assert!(text.contains("Comprar pão"));
    assert!(matches!(result.get("follow_up"), Some(Json::Null)));
}

#[test]
fn unknown_method_errors() {
    let resp = reply(handle(req("foo/bar", Json::Null), &tools()));
    assert!(resp.result.is_none());
    let error = resp.error.expect("err");
    assert_eq!(error.code, -32601);
    assert_eq!(error.message, "method not found: foo/bar");
}

#[test]
fn a_call_needs_a_name() {
    for params in [
        Json::Null,
        object(vec![]),
        object(vec![("name".to_string(), Json::text(""))]),
        object(vec![("name".to_string(), Json::Bool(true))]),
        array(vec![Json::text("name")]),
    ] {
        let error = reply(handle(req("tools/call", params), &tools())).error.unwrap();
        assert_eq!(error.code, -32602);
        assert_eq!(error.message, "missing tool 'name'");
    }
}

#[test]
fn a_call_without_arguments_has_none() {
    let params = object(vec![
        ("arguments".to_string(), Json::text("args")),
        ("name".to_string(), Json::text("ação")),
    ]);
    match handle(req("tools/call", params), &tools()) {
        McpStep::Dispatch { call, .. } => {
            assert_eq!(call.name, "AÇÃO");
            assert_eq!(call.raw_args, "");
        }
        McpStep::Reply(_) => panic!("a call was expected"),
    }
}

#[test]
fn a_tool_answers_under_the_id_of_its_call() {
    let ok = call_response(
        Json::text("abc"),
        Ok(ToolOutcome { summary: "s".to_string(), follow_up: Some("c".to_string()) }),
    );
    assert_eq!(ok.id.as_str(), Some("abc"));
    assert!(ok.error.is_none());
    assert_eq!(ok.result.unwrap().get("follow_up").unwrap().as_str(), Some("c"));
    let failed = call_response(Json::Null, Err(AppError::Io("x".to_string())));
    assert!(failed.result.is_none());
    let error = failed.error.unwrap();
    assert_eq!(error.code, -32000);
    assert_eq!(error.message, "io error: x");
}

#[test]
fn a_line_is_skipped_refused_or_handled() {
    assert!(matches!(on_line(" \t", Err("x".to_string())), Line::Skip));
    match on_line("not json at all", Err("expected ident".to_string())) {
        Line::Refuse(body) => {
            assert_eq!(body.get("jsonrpc").unwrap().as_str(), Some("2.0"));
            assert!(matches!(body.get("id"), Some(Json::Null)));
            let error = body.get("error").unwrap();
            assert!(matches!(error.get("code"), Some(Json::Number(n)) if n == "-32700"));
            assert_eq!(
                error.get("message").unwrap().as_str(),
                Some("parse error: expected ident")
            );
        }
        _ => panic!("the line is no request"),
    }
    assert!(matches!(
        on_line("{}", Ok(req("tools/list", Json::Null))),
        Line::Request(r) if r.method == "tools/list"
    ));
}
