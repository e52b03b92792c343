use chat_assistant::keyed::KeyedTable;
use chat_assistant::tools::builtin::{get_weather, set_reminder};
use chat_assistant::tools::json::JsonValue;
use chat_assistant::tools::mcp::{
    list_tools_request, tools_from_response, ListToolsError, McpConfig, McpError,
    McpServerConfig, McpTool, McpToolLoader, RpcError, RpcResponse,
};

fn s(x: &str) -> String {
    x.to_string()
}

fn server(name: &str, active: bool) -> McpServerConfig {
    McpServerConfig {
        name: s(name),
        description: None,
        base_url: format!("http://{}/mcp", name),
        is_active: active,
        server_type: None,
    }
}

#[test]
fn builtin_texts() {
    assert_eq!(get_weather(s("北京")), "北京 today: Sunny, 25°C, humidity 60%");
    assert_eq!(set_reminder(s("tea"), Some(5)), "Reminder set: 'tea' in 5 minutes");
    assert_eq!(set_reminder(s("now"), None), "Reminder set: 'now' in 0 minutes");
    assert_eq!(set_reminder(s("x"), Some(-12)), "Reminder set: 'x' in -12 minutes");
    assert_eq!(
        set_reminder(s("y"), Some(i32::MIN)),
        "Reminder set: 'y' in -2147483648 minutes"
    );
}

#[test]
fn active_servers_filter() {
    let mut table = KeyedTable::new();
    table.insert(s("a"), server("a", true));
    table.insert(s("b"), server("b", false));
    table.insert(s("c"), server("c", true));
    table.insert(s("a"), server("a2", true));
    assert_eq!(table.len(), 3);
    assert!(table.contains_key("b"));
    let config = McpConfig { mcp_servers: table };
    let active = config.active_servers();
    let ids: Vec<&str> = active.iter().map(|(k, _)| k.as_str()).collect();
    assert_eq!(ids, vec!["a", "c"]);
    assert_eq!(active[0].1.name, "a2");
    let owned = McpToolLoader::get_active_servers(config);
    assert_eq!(owned.len(), 2);
    assert_eq!(owned[1].0, "c");
    let loader = McpToolLoader::new("config/mcp.json");
    assert_eq!(loader.config_path(), "config/mcp.json");
}

#[test]
fn keyed_table_remove() {
    let mut t: KeyedTable<u32> = KeyedTable::new();
    t.insert(s("x"), 1);
    t.insert(s("y"), 2);
    t.remove("x");
    t.remove("zz");
    assert_eq!(t.len(), 1);
    assert_eq!(t.get("x"), None);
    assert_eq!(t.get("y"), Some(&2));
}

fn obj(members: Vec<(&str, JsonValue)>) -> JsonValue {
    JsonValue::Object(members.into_iter().map(|(k, v)| (s(k), v)).collect())
}

#[test]
fn tools_list_parsing() {
    let tools = JsonValue::Array(vec![
        obj(vec![
            ("name", JsonValue::String(s("search"))),
            ("description", JsonValue::String(s("Search the web"))),
            ("inputSchema", obj(vec![("type", JsonValue::String(s("object")))])),
        ]),
        obj(vec![("description", JsonValue::String(s("no name")))]),
        obj(vec![("name", JsonValue::Number(s("3")))]),
        obj(vec![
            ("name", JsonValue::String(s("bare"))),
            ("description", JsonValue::Bool(true)),
        ]),
        JsonValue::Null,
    ]);
    let response = RpcResponse {
        jsonrpc: Some(s("2.0")),
        id: Some(1),
        result: Some(obj(vec![("tools", tools)])),
        error: None,
    };
    let got = tools_from_response(response, "http://h/mcp").unwrap();
    assert_eq!(got.len(), 2);
    assert_eq!(got[0].name, "search");
    assert_eq!(got[0].description, "Search the web");
    assert_eq!(got[0].base_url, "http://h/mcp");
    match &got[0].input_schema {
        JsonValue::Object(m) => assert_eq!(m[0].0, "type"),
        other => panic!("unexpected schema {:?}", other),
    }
    assert_eq!(got[1].name, "bare");
    assert_eq!(got[1].description, "");
    match &got[1].input_schema {
        JsonValue::Object(m) => assert!(m.is_empty()),
        other => panic!("unexpected schema {:?}", other),
    }
}

#[test]
fn tools_list_errors() {
    let err = RpcResponse {
        jsonrpc: None,
        id: None,
        result: Some(JsonValue::Null),
        error: Some(RpcError { code: -32601, message: s("nope"), data: None }),
    };
    match tools_from_response(err, "u") {
        Err(e) => assert_eq!(e.message(), "Server error: nope"),
        Ok(_) => panic!("expected an error"),
    }
    let empty = RpcResponse { jsonrpc: None, id: None, result: None, error: None };
    match tools_from_response(empty, "u") {
        Err(ListToolsError::NoResult) => {}
        _ => panic!("expected NoResult"),
    }
    let no_tools = RpcResponse { jsonrpc: None, id: None, result: Some(obj(vec![])), error: None };
    assert!(tools_from_response(no_tools, "u").unwrap().is_empty());
}

#[test]
fn tool_call_request_and_outcome() {
    let tool = McpTool::new(s("echo"), s(""), obj(vec![]), s("http://h"));
    let req = tool.call_request(JsonValue::Bool(true));
    assert_eq!(req.method, "tools/call");
    assert_eq!(req.jsonrpc, "2.0");
    assert_eq!(req.id, 1);
    match &req.params {
        JsonValue::Object(m) => {
            assert_eq!(m[0].0, "name");
            assert!(matches!(&m[0].1, JsonValue::String(n) if n == "echo"));
            assert_eq!(m[1].0, "arguments");
            assert!(matches!(m[1].1, JsonValue::Bool(true)));
        }
        _ => panic!("params must be an object"),
    }
    let list = list_tools_request();
    assert_eq!(list.method, "tools/list");
    let ok = RpcResponse { jsonrpc: None, id: None, result: Some(JsonValue::Bool(false)), error: None };
    assert!(matches!(McpTool::call_outcome(ok), Ok(JsonValue::Bool(false))));
    let none = RpcResponse { jsonrpc: None, id: None, result: None, error: None };
    match McpTool::call_outcome(none) {
        Err(e) => assert_eq!(e.message(), "JSON-RPC error: No result"),
        Ok(_) => panic!("expected an error"),
    }
    let failed = RpcResponse {
        jsonrpc: None,
        id: None,
        result: None,
        error: Some(RpcError { code: 1, message: s("bad"), data: None }),
    };
    assert!(matches!(McpTool::call_outcome(failed), Err(McpError::JsonRpc(m)) if m == "bad"));
    assert_eq!(McpError::Connection(s("x")).message(), "MCP connection error: x");
    assert_eq!(McpError::Tool(s("y")).message(), "MCP tool error: y");
}

#[test]
fn json_lookup() {
    let v = obj(vec![
        ("a", JsonValue::Number(s("-42"))),
        ("b", JsonValue::String(s("text"))),
        ("a", JsonValue::Null),
    ]);
    assert_eq!(v.get("a").unwrap().as_i64(), Some(-42));
    assert_eq!(v.get("b").unwrap().as_str(), Some("text"));
    assert!(v.get("c").is_none());
    assert!(JsonValue::Null.get("a").is_none());
    assert_eq!(JsonValue::Number(s("1.5")).as_i64(), None);
    assert_eq!(JsonValue::Number(s("9223372036854775808")).as_i64(), None);
    assert!(matches!(v.take("a"), Some(JsonValue::Number(n)) if n == "-42"));
}

#[test]
fn keyed_table_keeps_walking_order() {
    let mut t: KeyedTable<u32> = KeyedTable::new();
    t.insert(s("x"), 1);
    t.insert(s("y"), 2);
    t.insert(s("z"), 3);
    t.insert(s("x"), 10);
    let keys: Vec<(String, u32)> = (0..t.len()).map(|i| {
        let (k, v) = t.entry(i);
        (k.clone(), *v)
    }).collect();
    assert_eq!(keys, vec![(s("x"), 10), (s("y"), 2), (s("z"), 3)]);
    t.remove("y");
    let (k0, v0) = t.entry(0);
    let (k1, v1) = t.entry(1);
    assert_eq!((k0.as_str(), *v0, k1.as_str(), *v1), ("x", 10, "z", 3));
    assert_eq!(t.len(), 2);
}

#[test]
fn active_servers_as_a_set() {
    let mut table = KeyedTable::new();
    table.insert(s("p"), server("p", false));
    table.insert(s("q"), server("q", true));
    table.insert(s("r"), server("r", true));
    table.insert(s("p"), server("p", true));
    table.insert(s("q"), server("q", false));
    let owned = McpToolLoader::get_active_servers(McpConfig { mcp_servers: table });
    let mut ids: Vec<&str> = owned.iter().map(|(k, _)| k.as_str()).collect();
    ids.sort();
    assert_eq!(ids, vec!["p", "r"]);
    assert!(owned.iter().all(|(k, c)| c.is_active && c.name == *k));
}
