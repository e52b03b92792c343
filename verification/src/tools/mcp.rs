//! Tool servers speaking the Model Context Protocol: their configuration,
//! the JSON-RPC requests sent to them and the reading of their replies.

use vstd::prelude::*;
use crate::keyed::{distinct_keys, KeyedTable};
use crate::tools::json::{json_get, json_str, JsonValue};

verus! {

/// A failure talking to a tool server.
#[derive(Debug)]
pub enum McpError {
    Connection(String),
    Tool(String),
    JsonRpc(String),
}

/// The text that describes an `McpError`.
pub open spec fn mcp_error_text(e: McpError) -> Seq<char> {
    match e {
        McpError::Connection(s) => "MCP connection error: "@ + s@,
        McpError::Tool(s) => "MCP tool error: "@ + s@,
        McpError::JsonRpc(s) => "JSON-RPC error: "@ + s@,
    }
}

impl McpError {
    /// The text that describes the failure.
    pub fn message(&self) -> (s: String)
        ensures
            s@ == mcp_error_text(*self),
    {
        match self {
            McpError::Connection(m) => {
                let mut s = String::from_str("MCP connection error: ");
                s.append(m.as_str());
                s
            },
            McpError::Tool(m) => {
                let mut s = String::from_str("MCP tool error: ");
                s.append(m.as_str());
                s
            },
            McpError::JsonRpc(m) => {
                let mut s = String::from_str("JSON-RPC error: ");
                s.append(m.as_str());
                s
            },
        }
    }
}

/// How to reach one tool server.
#[derive(Debug)]
pub struct McpServerConfig {
    pub name: String,
    pub description: Option<String>,
    pub base_url: String,
    pub is_active: bool,
    pub server_type: Option<String>,
}

fn copy_opt(o: &Option<String>) -> (r: Option<String>)
    ensures
        r == *o,
{
    match o {
        Some(s) => Some(s.clone()),
        None => None,
    }
}

impl Clone for McpServerConfig {
    fn clone(&self) -> (r: Self)
        ensures
            r == *self,
    {
        McpServerConfig {
            name: self.name.clone(),
            description: copy_opt(&self.description),
            base_url: self.base_url.clone(),
            is_active: self.is_active,
            server_type: copy_opt(&self.server_type),
        }
    }
}

/// The servers of `es` that are active, in order.
pub open spec fn active_of(es: Seq<(String, McpServerConfig)>) -> Seq<(String, McpServerConfig)>
    decreases es.len(),
{
    if es.len() == 0 {
        Seq::empty()
    } else {
        active_of(es.drop_last()) + if es.last().1.is_active {
            seq![es.last()]
        } else {
            Seq::empty()
        }
    }
}

/// Each server that `active_of` picks from `es` is an entry of `es`, and is
/// active.
proof fn lemma_active_of_picked(es: Seq<(String, McpServerConfig)>)
    ensures
        forall|i: int|
            0 <= i < active_of(es).len() ==> (#[trigger] active_of(es)[i]).1.is_active && exists|j: int|
                0 <= j < es.len() && es[j] == active_of(es)[i],
    decreases es.len(),
{
    if es.len() > 0 {
        let init = es.drop_last();
        let a0 = active_of(init);
        let a = active_of(es);
        lemma_active_of_picked(init);
        assert forall|i: int| 0 <= i < a.len() implies (#[trigger] a[i]).1.is_active && exists|j: int|
            0 <= j < es.len() && es[j] == a[i] by {
            if i < a0.len() {
                assert(a[i] == a0[i]);
                let j = choose|j: int| 0 <= j < init.len() && init[j] == a0[i];
                assert(es[j] == init[j]);
            } else {
                assert(a[i] == es[es.len() - 1]);
            }
        }
    }
}

/// Each active entry of `es` is picked by `active_of`.
proof fn lemma_active_of_complete(es: Seq<(String, McpServerConfig)>)
    ensures
        forall|j: int|
            0 <= j < es.len() && (#[trigger] es[j]).1.is_active ==> exists|i: int|
                0 <= i < active_of(es).len() && active_of(es)[i] == es[j],
    decreases es.len(),
{
    if es.len() > 0 {
        let init = es.drop_last();
        let a0 = active_of(init);
        let a = active_of(es);
        lemma_active_of_complete(init);
        assert forall|j: int| 0 <= j < es.len() && (#[trigger] es[j]).1.is_active implies exists|
            i: int,
        | 0 <= i < a.len() && a[i] == es[j] by {
            if j < es.len() - 1 {
                assert(init[j] == es[j]);
                let i = choose|i: int| 0 <= i < a0.len() && a0[i] == init[j];
                assert(a[i] == a0[i]);
            } else {
                assert(a[a.len() - 1] == es[j]);
            }
        }
    }
}

/// Picking from entries with distinct keys gives entries with distinct
/// keys.
proof fn lemma_active_of_distinct(es: Seq<(String, McpServerConfig)>)
    requires
        distinct_keys(es),
    ensures
        distinct_keys(active_of(es)),
    decreases es.len(),
{
    if es.len() > 0 {
        let init = es.drop_last();
        let a0 = active_of(init);
        let a = active_of(es);
        assert(distinct_keys(init));
        lemma_active_of_distinct(init);
        lemma_active_of_picked(init);
        assert forall|x: int, y: int| 0 <= x < y < a.len() implies a[x].0@ != a[y].0@ by {
            if y < a0.len() {
                assert(a[x] == a0[x] && a[y] == a0[y]);
            } else {
                assert(a[x] == a0[x]);
                let j = choose|j: int| 0 <= j < init.len() && init[j] == a0[x];
                assert(es[j] == init[j]);
                assert(a[y] == es[es.len() - 1]);
            }
        }
    }
}

/// The active servers, taken as a set, are exactly the servers of the
/// configuration that are active: each one listed is in the table with
/// that configuration and is active, each active server of the table is
/// listed, and none is listed twice.
pub proof fn law_active_servers_are_the_active_ones(table: KeyedTable<McpServerConfig>)
    requires
        table.keys_distinct(),
    ensures
        forall|i: int|
            0 <= i < active_of(table.entry_seq()).len() ==> table@.contains_key(
                (#[trigger] active_of(table.entry_seq())[i]).0@,
            ) && table@[active_of(table.entry_seq())[i].0@] == active_of(table.entry_seq())[i].1
                && active_of(table.entry_seq())[i].1.is_active,
        forall|k: Seq<char>|
            #[trigger] table@.contains_key(k) && table@[k].is_active ==> exists|i: int|
                0 <= i < active_of(table.entry_seq()).len() && active_of(table.entry_seq())[i].0@
                    == k,
        distinct_keys(active_of(table.entry_seq())),
{
    let es = table.entry_seq();
    let a = active_of(es);
    table.lemma_entries();
    lemma_active_of_picked(es);
    lemma_active_of_complete(es);
    lemma_active_of_distinct(es);
    assert forall|i: int| 0 <= i < a.len() implies table@.contains_key((#[trigger] a[i]).0@)
        && table@[a[i].0@] == a[i].1 && a[i].1.is_active by {
        let j = choose|j: int| 0 <= j < es.len() && es[j] == a[i];
        assert(table@.contains_key(es[j].0@));
    }
    assert forall|k: Seq<char>| #[trigger]
        table@.contains_key(k) && table@[k].is_active implies exists|i: int|
        0 <= i < a.len() && a[i].0@ == k by {
        let j = choose|j: int| 0 <= j < es.len() && es[j].0@ == k;
        assert(table@.contains_key(es[j].0@));
        assert(es[j].1.is_active);
        let i = choose|i: int| 0 <= i < a.len() && a[i] == es[j];
        assert(a[i].0@ == k);
    }
}

/// The tool servers, by identifier.
pub struct McpConfig {
    pub mcp_servers: KeyedTable<McpServerConfig>,
}

impl McpConfig {
    /// The active servers with their identifiers, in the table's order.
    pub fn active_servers(&self) -> (r: Vec<(&String, &McpServerConfig)>)
        ensures
            r@.len() == active_of(self.mcp_servers.entry_seq()).len(),
            forall|i: int|
                0 <= i < r@.len() ==> *(#[trigger] r@[i]).0 == active_of(
                    self.mcp_servers.entry_seq(),
                )[i].0 && *r@[i].1 == active_of(self.mcp_servers.entry_seq())[i].1,
    {
        let ghost es = self.mcp_servers.entry_seq();
        let n = self.mcp_servers.len();
        let mut r: Vec<(&String, &McpServerConfig)> = Vec::new();
        let mut i: usize = 0;
        while i < n
            invariant
                n == es.len(),
                es == self.mcp_servers.entry_seq(),
                i <= n,
                r@.len() == active_of(es.take(i as int)).len(),
                forall|j: int|
                    0 <= j < r@.len() ==> *(#[trigger] r@[j]).0 == active_of(es.take(i as int))[j].0
                        && *r@[j].1 == active_of(es.take(i as int))[j].1,
            decreases n - i,
        {
            let (id, server) = self.mcp_servers.entry(i);
            let ghost before = active_of(es.take(i as int));
            proof {
                let t = es.take(i + 1);
                assert(t.drop_last() =~= es.take(i as int));
                assert(t.last() == es[i as int]);
            }
            if server.is_active {
                r.push((id, server));
                assert(active_of(es.take(i + 1)) =~= before.push(es[i as int]));
            } else {
                assert(active_of(es.take(i + 1)) =~= before);
            }
            i = i + 1;
        }
        assert(es.take(n as int) =~= es);
        r
    }
}

/// Loads tool server configuration from a file.
pub struct McpToolLoader {
    config_path: String,
}

impl McpToolLoader {
    /// A loader for the configuration file at `config_path`.
    pub fn new(config_path: &str) -> (l: Self)
        ensures
            l.path() == config_path@,
    {
        McpToolLoader { config_path: String::from_str(config_path) }
    }

    /// The path of the configuration file.
    pub closed spec fn path(&self) -> Seq<char> {
        self.config_path@
    }

    /// The path of the configuration file.
    pub fn config_path(&self) -> (p: &str)
        ensures
            p@ == self.path(),
    {
        self.config_path.as_str()
    }

    /// The active servers of a loaded configuration, with their
    /// identifiers, in the table's order.
    pub fn get_active_servers(config: McpConfig) -> (r: Vec<(String, McpServerConfig)>)
        ensures
            r@ == active_of(config.mcp_servers.entry_seq()),
    {
        let ghost es = config.mcp_servers.entry_seq();
        let all = config.mcp_servers.into_entries();
        let mut rest = all;
        let mut r: Vec<(String, McpServerConfig)> = Vec::new();
        let ghost mut i: int = 0;
        while rest.len() > 0
            invariant
                0 <= i <= es.len(),
                rest@ == es.skip(i),
                r@ == active_of(es.take(i)),
            decreases rest@.len(),
        {
            let e = rest.remove(0);
            proof {
                let t = es.take(i + 1);
                assert(t.drop_last() =~= es.take(i));
                assert(t.last() == es[i]);
                assert(e == es[i]);
            }
            if e.1.is_active {
                r.push(e);
            } else {
                assert(active_of(es.take(i + 1)) =~= active_of(es.take(i)));
            }
            proof {
                assert(rest@ =~= es.skip(i + 1));
                i = i + 1;
            }
        }
        assert(es.take(i) =~= es);
        r
    }
}

/// A JSON-RPC request to a tool server.
#[derive(Debug)]
pub struct RpcRequest {
    pub jsonrpc: &'static str,
    pub id: u64,
    pub method: String,
    pub params: JsonValue,
}

/// The error member of a JSON-RPC reply.
#[derive(Debug)]
pub struct RpcError {
    pub code: i32,
    pub message: String,
    pub data: Option<JsonValue>,
}

/// A JSON-RPC reply from a tool server.
#[derive(Debug)]
pub struct RpcResponse {
    pub jsonrpc: Option<String>,
    pub id: Option<u64>,
    pub result: Option<JsonValue>,
    pub error: Option<RpcError>,
}

/// A request for `method` with `params`, numbered 1.
pub fn rpc_request(method: &str, params: JsonValue) -> (r: RpcRequest)
    ensures
        r.jsonrpc@ == "2.0"@,
        r.id == 1,
        r.method@ == method@,
        r.params == params,
{
    RpcRequest { jsonrpc: "2.0", id: 1, method: String::from_str(method), params }
}

/// Why listing a server's tools failed.
#[derive(Debug)]
pub enum ListToolsError {
    /// The server answered with an error.
    Server(String),
    /// The server's answer held no result.
    NoResult,
}

/// The text that describes a `ListToolsError`.
pub open spec fn list_tools_error_text(e: ListToolsError) -> Seq<char> {
    match e {
        ListToolsError::Server(s) => "Server error: "@ + s@,
        ListToolsError::NoResult => "No result"@,
    }
}

impl ListToolsError {
    /// The text that describes the failure.
    pub fn message(&self) -> (s: String)
        ensures
            s@ == list_tools_error_text(*self),
    {
        match self {
            ListToolsError::Server(m) => {
                let mut s = String::from_str("Server error: ");
                s.append(m.as_str());
                s
            },
            ListToolsError::NoResult => String::from_str("No result"),
        }
    }
}

/// A tool offered by a tool server.
#[derive(Debug)]
pub struct McpTool {
    pub name: String,
    pub description: String,
    pub input_schema: JsonValue,
    pub base_url: String,
}

/// A tool entry of a server's tool list is taken when it names the tool
/// with a string.
pub open spec fn tool_accepted(t: JsonValue) -> bool {
    json_str(json_get(t, "name"@)) is Some
}

/// `tool` is what the tool list entry `t` of the server at `base` gives:
/// its name, its description (empty when not a string), its input schema
/// (an empty object when absent) and the server's address.
pub open spec fn tool_from(t: JsonValue, base: Seq<char>, tool: McpTool) -> bool {
    &&& tool.name@ == json_str(json_get(t, "name"@))->0
    &&& tool.description@ == match json_str(json_get(t, "description"@)) {
        Some(d) => d,
        None => Seq::empty(),
    }
    &&& match json_get(t, "inputSchema"@) {
        Some(s) => tool.input_schema == s,
        None => tool.input_schema matches JsonValue::Object(es) && es@.len() == 0,
    }
    &&& tool.base_url@ == base
}

/// `out` is what the tool list `arr` of the server at `base` gives: one
/// tool per accepted entry, in order.
pub open spec fn tools_from(arr: Seq<JsonValue>, base: Seq<char>, out: Seq<McpTool>) -> bool
    decreases arr.len(),
{
    if arr.len() == 0 {
        out.len() == 0
    } else if tool_accepted(arr[0]) {
        out.len() > 0 && tool_from(arr[0], base, out[0]) && tools_from(
            arr.drop_first(),
            base,
            out.drop_first(),
        )
    } else {
        tools_from(arr.drop_first(), base, out)
    }
}

/// The tool list held in a `tools/list` result: its `tools` member when
/// that is an array, else nothing.
pub open spec fn tool_list_of(result: JsonValue) -> Seq<JsonValue> {
    match json_get(result, "tools"@) {
        Some(JsonValue::Array(a)) => a@,
        _ => Seq::empty(),
    }
}

pub proof fn lemma_tools_from_append(
    arr: Seq<JsonValue>,
    base: Seq<char>,
    out: Seq<McpTool>,
    t: JsonValue,
    extra: Seq<McpTool>,
)
    requires
        tools_from(arr, base, out),
        tool_accepted(t) ==> extra.len() == 1 && tool_from(t, base, extra[0]),
        !tool_accepted(t) ==> extra.len() == 0,
    ensures
        tools_from(arr.push(t), base, out + extra),
    decreases arr.len(),
{
    reveal_with_fuel(tools_from, 2);
    if arr.len() == 0 {
        let a = arr.push(t);
        assert(a.drop_first() =~= Seq::<JsonValue>::empty());
        assert(a[0] == t);
        if tool_accepted(t) {
            assert((out + extra).drop_first() =~= Seq::<McpTool>::empty());
            assert((out + extra)[0] == extra[0]);
        } else {
            assert(out + extra =~= Seq::<McpTool>::empty());
        }
    } else {
        let a = arr.push(t);
        assert(a.drop_first() =~= arr.drop_first().push(t));
        assert(a[0] == arr[0]);
        if tool_accepted(arr[0]) {
            lemma_tools_from_append(arr.drop_first(), base, out.drop_first(), t, extra);
            assert((out + extra).drop_first() =~= out.drop_first() + extra);
            assert((out + extra)[0] == out[0]);
        } else {
            lemma_tools_from_append(arr.drop_first(), base, out, t, extra);
        }
    }
}

/// The parameters of a `tools/call` request: the tool's name and the
/// arguments.
pub open spec fn call_params(p: JsonValue, name: Seq<char>, args: JsonValue) -> bool {
    &&& p matches JsonValue::Object(es)
    &&& p->Object_0@.len() == 2
    &&& p->Object_0@[0].0@ == "name"@
    &&& json_str(Some(p->Object_0@[0].1)) == Some(name)
    &&& p->Object_0@[1].0@ == "arguments"@
    &&& p->Object_0@[1].1 == args
}

impl McpTool {
    /// A tool of the server at `base_url`.
    pub fn new(name: String, description: String, input_schema: JsonValue, base_url: String) -> (t:
        Self)
        ensures
            t.name == name,
            t.description == description,
            t.input_schema == input_schema,
            t.base_url == base_url,
    {
        McpTool { name, description, input_schema, base_url }
    }

    /// The `tools/call` request that calls this tool with `args`.
    pub fn call_request(&self, args: JsonValue) -> (r: RpcRequest)
        ensures
            r.jsonrpc@ == "2.0"@,
            r.id == 1,
            r.method@ == "tools/call"@,
            call_params(r.params, self.name@, args),
    {
        let mut es: Vec<(String, JsonValue)> = Vec::new();
        es.push((String::from_str("name"), JsonValue::String(self.name.clone())));
        es.push((String::from_str("arguments"), args));
        rpc_request("tools/call", JsonValue::Object(es))
    }

    /// What a `tools/call` reply gives: its result, or the error it reports.
    pub fn call_outcome(response: RpcResponse) -> (r: Result<JsonValue, McpError>)
        ensures
            response.error matches Some(e) ==> (r matches Err(McpError::JsonRpc(m)) && m
                == e.message),
            response.error is None && response.result is None ==> (r matches Err(
                McpError::JsonRpc(m),
            ) && m@ == "No result"@),
            response.error is None && response.result is Some ==> r == Ok::<
                JsonValue,
                McpError,
            >(response.result->0),
    {
        match response.error {
            Some(e) => Err(McpError::JsonRpc(e.message)),
            None => match response.result {
                Some(v) => Ok(v),
                None => Err(McpError::JsonRpc(String::from_str("No result"))),
            },
        }
    }
}

/// The tool that the tool list entry `t` describes, when it names one.
fn tool_of(t: JsonValue, base_url: &str) -> (r: Option<McpTool>)
    ensures
        r is Some <==> tool_accepted(t),
        r matches Some(tool) ==> tool_from(t, base_url@, tool),
{
    let name = match t.get("name") {
        Some(v) => match v.as_str() {
            Some(s) => String::from_str(s),
            None => {
                return None;
            },
        },
        None => {
            return None;
        },
    };
    let description = match t.get("description") {
        Some(v) => match v.as_str() {
            Some(s) => String::from_str(s),
            None => String::new(),
        },
        None => String::new(),
    };
    let schema = match t.take("inputSchema") {
        Some(s) => s,
        None => JsonValue::Object(Vec::new()),
    };
    Some(McpTool::new(name, description, schema, String::from_str(base_url)))
}

/// The `tools/list` request.
pub fn list_tools_request() -> (r: RpcRequest)
    ensures
        r.jsonrpc@ == "2.0"@,
        r.id == 1,
        r.method@ == "tools/list"@,
        r.params matches JsonValue::Object(es) && es@.len() == 0,
{
    rpc_request("tools/list", JsonValue::Object(Vec::new()))
}

/// The tools that a `tools/list` reply of the server at `base_url` offers:
/// one per entry of the result's `tools` array that names a tool.
pub fn tools_from_response(response: RpcResponse, base_url: &str) -> (r: Result<
    Vec<McpTool>,
    ListToolsError,
>)
    ensures
        response.error matches Some(e) ==> (r matches Err(ListToolsError::Server(m)) && m
            == e.message),
        response.error is None && response.result is None ==> r matches Err(
            ListToolsError::NoResult,
        ),
        response.error is None && response.result is Some ==> (r matches Ok(tools) && tools_from(
            tool_list_of(response.result->0),
            base_url@,
            tools@,
        )),
{
    match response.error {
        Some(e) => {
            return Err(ListToolsError::Server(e.message));
        },
        None => {},
    }
    let result = match response.result {
        Some(v) => v,
        None => {
            return Err(ListToolsError::NoResult);
        },
    };
    let ghost arr = tool_list_of(result);
    let mut rest: Vec<JsonValue> = match result.take("tools") {
        Some(JsonValue::Array(a)) => a,
        _ => Vec::new(),
    };
    assert(rest@ == arr);
    let mut tools: Vec<McpTool> = Vec::new();
    let ghost mut i: int = 0;
    assert(arr.take(0) =~= Seq::<JsonValue>::empty());
    while rest.len() > 0
        invariant
            0 <= i <= arr.len(),
            rest@ == arr.skip(i),
            tools_from(arr.take(i), base_url@, tools@),
        decreases rest@.len(),
    {
        let t = rest.remove(0);
        assert(t == arr[i]);
        let ghost before = tools@;
        match tool_of(t, base_url) {
            Some(tool) => {
                tools.push(tool);
                proof {
                    lemma_tools_from_append(arr.take(i), base_url@, before, arr[i], seq![tool]);
                    assert(before + seq![tool] =~= tools@);
                }
            },
            None => {
                proof {
                    lemma_tools_from_append(arr.take(i), base_url@, before, arr[i], Seq::empty());
                    assert(before + Seq::<McpTool>::empty() =~= tools@);
                }
            },
        }
        proof {
            assert(arr.take(i).push(arr[i]) =~= arr.take(i + 1));
            assert(rest@ =~= arr.skip(i + 1));
            i = i + 1;
        }
    }
    assert(arr.take(i) =~= arr);
    Ok(tools)
}

} // verus!
