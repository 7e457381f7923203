//! The MCP (Model Context Protocol) client's bookkeeping: JSON-RPC request
//! ids, the initialization retry policy, reading replies, the tool cache,
//! how the server process is launched, and the status the frontend sees.
use crate::json::{Json, JsonV};
use crate::text::{blank, is_blank, trim, trim_str};
use vstd::prelude::*;

verus! {

// ------------------------------------------------------------------ status
/// What the frontend is told about the MCP server.
#[derive(Debug)]
pub struct McpStatus {
    pub running: bool,
    pub error_message: Option<String>,
}

/// The status after starting: a start failure, else an initialization
/// failure, else running.
pub fn start_status(start_error: Option<&str>, init_error: Option<&str>) -> (r: McpStatus)
    ensures
        match start_error {
            Some(e) => !r.running && (r.error_message matches Some(m) && m@
                == "Failed to start MCP server: "@ + e@),
            None => match init_error {
                Some(e) => !r.running && (r.error_message matches Some(m) && m@
                    == "Failed to initialize MCP: "@ + e@),
                None => r.running && r.error_message is None,
            },
        },
{
    match start_error {
        Some(e) => {
            let mut m = "Failed to start MCP server: ".to_string();
            m.append(e);
            McpStatus { running: false, error_message: Some(m) }
        },
        None => match init_error {
            Some(e) => {
                let mut m = "Failed to initialize MCP: ".to_string();
                m.append(e);
                McpStatus { running: false, error_message: Some(m) }
            },
            None => McpStatus { running: true, error_message: None },
        },
    }
}

/// The status a check reports.
pub fn check_status(running: bool) -> (r: McpStatus)
    ensures
        r.running == running,
        running ==> r.error_message is None,
        !running ==> (r.error_message matches Some(m) && m@ == "MCP server is not running"@),
{
    McpStatus {
        running,
        error_message: if !running {
            Some("MCP server is not running".to_string())
        } else {
            None
        },
    }
}

/// The status after stopping: stopped, or still running with the error.
pub fn stop_status(stop_error: Option<&str>) -> (r: McpStatus)
    ensures
        match stop_error {
            None => !r.running && r.error_message is None,
            Some(e) => r.running && (r.error_message matches Some(m) && m@
                == "Failed to stop MCP server: "@ + e@),
        },
{
    match stop_error {
        None => McpStatus { running: false, error_message: None },
        Some(e) => {
            let mut m = "Failed to stop MCP server: ".to_string();
            m.append(e);
            McpStatus { running: true, error_message: Some(m) }
        },
    }
}

// --------------------------------------------------------------- messages
/// A JSON-RPC error object.
#[derive(Debug)]
pub struct McpError {
    pub code: i64,
    pub message: String,
    pub data: Option<Json>,
}

/// A JSON-RPC reply.
#[derive(Debug)]
pub struct McpResponse {
    pub id: Option<u64>,
    pub result: Option<Json>,
    pub error: Option<McpError>,
}

/// A JSON-RPC request.
#[derive(Debug)]
pub struct McpRequest {
    pub jsonrpc: String,
    pub id: u64,
    pub method: String,
    pub params: Option<Json>,
}

impl McpRequest {
    /// A JSON-RPC 2.0 request.
    pub fn new(id: u64, method: String, params: Option<Json>) -> (r: McpRequest)
        ensures
            r.jsonrpc@ == "2.0"@,
            r.id == id,
            r.method == method,
            r.params == params,
    {
        McpRequest { jsonrpc: "2.0".to_string(), id, method, params }
    }
}

/// The parameters of the `initialize` request.
#[derive(Debug)]
pub struct McpInitParams {
    pub protocol_version: String,
    pub client_name: String,
    pub client_version: String,
}

impl Default for McpInitParams {
    fn default() -> (r: McpInitParams)
        ensures
            r.protocol_version@ == "2024-11-05"@,
            r.client_name@ == "libreoffice-ai"@,
            r.client_version@ == "0.1.0"@,
    {
        McpInitParams {
            protocol_version: "2024-11-05".to_string(),
            client_name: "libreoffice-ai".to_string(),
            client_version: "0.1.0".to_string(),
        }
    }
}

/// `next_id`'s counter: ids start at 1 and each request takes the next one
/// (wrapping around as `AtomicU64::fetch_add` does).
#[derive(Debug)]
pub struct RequestIds {
    next: u64,
}

impl View for RequestIds {
    type V = u64;

    closed spec fn view(&self) -> u64 {
        self.next
    }
}

/// `n + 1`, wrapping to 0 after `u64::MAX`.
pub open spec fn wrapping_successor(n: u64) -> u64 {
    if n == u64::MAX {
        0
    } else {
        (n + 1) as u64
    }
}

impl RequestIds {
    /// The counter of a new client.
    pub fn new() -> (r: RequestIds)
        ensures
            r@ == 1,
    {
        RequestIds { next: 1 }
    }

    /// The id for the next request.
    pub fn next_id(&mut self) -> (r: u64)
        ensures
            r == old(self)@,
            final(self)@ == wrapping_successor(old(self)@),
    {
        let r = self.next;
        self.next = if self.next == u64::MAX {
            0
        } else {
            self.next + 1
        };
        r
    }
}

/// `send_request`'s reading of the reply line: an empty line means the
/// server closed its output; otherwise the trimmed line is the reply.
pub fn reply_text(line: &str) -> (r: Result<String, String>)
    ensures
        is_blank(line@) ==> (r matches Err(e) && e@ == "MCP server closed stdout (empty response)"@),
        !is_blank(line@) ==> (r matches Ok(t) && t@ == trim(line@)),
{
    if blank(line) {
        Err("MCP server closed stdout (empty response)".to_string())
    } else {
        Ok(trim_str(line))
    }
}

/// The message of a JSON-RPC error, prefixed.
fn prefixed(prefix: &str, message: &str) -> (r: String)
    ensures
        r@ == prefix@ + message@,
{
    let mut r = prefix.to_string();
    r.append(message);
    r
}

/// `[]`.
pub fn empty_array() -> (r: Json)
    ensures
        r@ == JsonV::Array(Seq::empty(), "[]"@),
{
    let r = Json::Array(Vec::new(), "[]".to_string());
    proof {
        crate::json::lemma_items_view(Seq::<Json>::empty());
        assert(crate::json::items_view(Seq::<Json>::empty()) =~= Seq::<JsonV>::empty());
    }
    r
}

/// `list_tools`' reading of a reply: the error, or the JSON list of tools
/// (`result.tools`, or `[]` when the reply or the result holds none).
pub fn tools_json(response: McpResponse) -> (r: Result<Json, String>)
    ensures
        match response.error {
            Some(e) => r matches Err(m) && m@ == "Failed to list tools: "@ + e.message@,
            None => r matches Ok(j) && j@ == match response.result {
                Some(res) => match res@.at("tools"@) {
                    Some(t) => t,
                    None => JsonV::Array(Seq::empty(), "[]"@),
                },
                None => JsonV::Array(Seq::empty(), "[]"@),
            },
        },
{
    match response.error {
        Some(e) => Err(prefixed("Failed to list tools: ", e.message.as_str())),
        None => match response.result {
            Some(res) => match res.get("tools") {
                Some(t) => Ok(t.duplicate()),
                None => Ok(empty_array()),
            },
            None => Ok(empty_array()),
        },
    }
}

/// `call_tool`'s reading of a reply: the error, the result, or an error
/// when there is no result.
pub fn tool_call_result(response: McpResponse) -> (r: Result<Json, String>)
    ensures
        match response.error {
            Some(e) => r matches Err(m) && m@ == "Tool invocation failed: "@ + e.message@,
            None => match response.result {
                Some(res) => r matches Ok(j) && j@ == res@,
                None => r matches Err(m) && m@ == "No result from tool invocation"@,
            },
        },
{
    match response.error {
        Some(e) => Err(prefixed("Tool invocation failed: ", e.message.as_str())),
        None => match response.result {
            Some(res) => Ok(res),
            None => Err("No result from tool invocation".to_string()),
        },
    }
}

// --------------------------------------------------------- initialization
/// How many times `initialize` is tried.
pub const INIT_MAX_ATTEMPTS: u32 = 10u32;

/// The pause between two tries, in milliseconds.
pub const INIT_RETRY_DELAY_MS: u64 = 2000u64;

/// How long initialization may take in all, in nanoseconds (30 s).
pub const INIT_MAX_WAIT_NANOS: u64 = 30_000_000_000u64;

/// What the initialization loop does next.
#[derive(Debug)]
pub enum InitAction {
    /// Send `initialize`; this is the given try (counting from 1).
    Send(u32),
    /// Wait this many milliseconds, then ask again.
    Wait(u64),
    /// Initialization is over, with this outcome.
    Finished(Result<(), String>),
}

/// The initialization retry policy: up to `INIT_MAX_ATTEMPTS` tries, each
/// started only within `INIT_MAX_WAIT_NANOS` of the beginning; a reply ends
/// it, a failed exchange is retried after `INIT_RETRY_DELAY_MS`.
#[derive(Debug)]
pub struct InitRetry {
    attempts: u32,
}

impl View for InitRetry {
    type V = u32;

    closed spec fn view(&self) -> u32 {
        self.attempts
    }
}

impl InitRetry {
    #[verifier::type_invariant]
    closed spec fn inv(self) -> bool {
        self.attempts <= INIT_MAX_ATTEMPTS
    }

    /// No try made yet.
    pub fn new() -> (r: InitRetry)
        ensures
            r@ == 0,
    {
        InitRetry { attempts: 0 }
    }

    /// Tries made so far; never more than `INIT_MAX_ATTEMPTS`.
    pub fn attempts(&self) -> (r: u32)
        ensures
            r == self@,
            r <= INIT_MAX_ATTEMPTS,
    {
        proof {
            use_type_invariant(self);
        }
        self.attempts
    }

    /// Whether another try may start, `elapsed_nanos` after the beginning.
    pub fn next_attempt(&mut self, elapsed_nanos: u64) -> (r: InitAction)
        ensures
            old(self)@ >= INIT_MAX_ATTEMPTS ==> final(self)@ == old(self)@ && (r matches InitAction::Finished(
                Err(m),
            ) && m@ == "MCP initialization failed after 10 attempts"@),
            old(self)@ < INIT_MAX_ATTEMPTS && elapsed_nanos > INIT_MAX_WAIT_NANOS ==> final(self)@
                == old(self)@ && (r matches InitAction::Finished(Err(m)) && m@
                == "MCP initialization timed out after 30s"@),
            old(self)@ < INIT_MAX_ATTEMPTS && elapsed_nanos <= INIT_MAX_WAIT_NANOS ==> final(self)@
                == old(self)@ + 1 && r == InitAction::Send(final(self)@),
    {
        proof {
            use_type_invariant(&*self);
        }
        if self.attempts >= INIT_MAX_ATTEMPTS {
            return InitAction::Finished(Err("MCP initialization failed after 10 attempts".to_string()));
        }
        if elapsed_nanos > INIT_MAX_WAIT_NANOS {
            return InitAction::Finished(Err("MCP initialization timed out after 30s".to_string()));
        }
        self.attempts = self.attempts + 1;
        InitAction::Send(self.attempts)
    }

    /// What follows the current try: `Ok(None)` is a reply without error,
    /// `Ok(Some(m))` a reply with error message `m`, `Err(_)` a failed
    /// exchange.
    pub fn after_reply(&mut self, reply: Result<Option<String>, String>) -> (r: InitAction)
        ensures
            final(self)@ == old(self)@,
            match reply {
                Ok(None) => r == InitAction::Finished(Ok(())),
                Ok(Some(e)) => r matches InitAction::Finished(Err(m)) && m@
                    == "MCP initialization failed: "@ + e@,
                Err(_) => if old(self)@ < INIT_MAX_ATTEMPTS {
                    r == InitAction::Wait(INIT_RETRY_DELAY_MS)
                } else {
                    r matches InitAction::Finished(Err(m)) && m@
                        == "MCP initialization failed after 10 attempts"@
                },
            },
    {
        proof {
            use_type_invariant(&*self);
        }
        match reply {
            Ok(None) => InitAction::Finished(Ok(())),
            Ok(Some(e)) => InitAction::Finished(
                Err(prefixed("MCP initialization failed: ", e.as_str())),
            ),
            Err(_) => if self.attempts < INIT_MAX_ATTEMPTS {
                InitAction::Wait(INIT_RETRY_DELAY_MS)
            } else {
                InitAction::Finished(Err("MCP initialization failed after 10 attempts".to_string()))
            },
        }
    }
}

// -------------------------------------------------------------- tool cache
/// A tool the MCP server offers.
#[derive(Debug)]
pub struct McpTool {
    pub name: String,
    pub description: Option<String>,
    pub input_schema: Json,
}

/// The mathematical form of an `McpTool`.
pub struct McpToolV {
    pub name: Seq<char>,
    pub description: Option<Seq<char>>,
    pub input_schema: JsonV,
}

impl View for McpTool {
    type V = McpToolV;

    open spec fn view(&self) -> McpToolV {
        McpToolV {
            name: self.name@,
            description: match self.description {
                Some(d) => Some(d@),
                None => None,
            },
            input_schema: self.input_schema@,
        }
    }
}

impl McpTool {
    /// A copy of this tool.
    pub fn duplicate(&self) -> (r: McpTool)
        ensures
            r@ == self@,
    {
        McpTool {
            name: self.name.clone(),
            description: match &self.description {
                Some(d) => Some(d.clone()),
                None => None,
            },
            input_schema: self.input_schema.duplicate(),
        }
    }
}

/// The views of a sequence of tools.
pub open spec fn tools_view(v: Seq<McpTool>) -> Seq<McpToolV> {
    v.map_values(|t: McpTool| t@)
}

/// No two tools share a name.
pub open spec fn distinct_names(ts: Seq<McpToolV>) -> bool {
    forall|i: int, j: int| 0 <= i < j < ts.len() ==> ts[i].name != ts[j].name
}

/// The tool named `name`.
pub open spec fn find_tool(ts: Seq<McpToolV>, name: Seq<char>) -> Option<McpToolV> {
    if exists|i: int| 0 <= i < ts.len() && ts[i].name == name {
        let i = choose|i: int| 0 <= i < ts.len() && ts[i].name == name;
        Some(ts[i])
    } else {
        None
    }
}

/// `t` recorded: it replaces the tool of the same name, or is added last.
pub open spec fn register(ts: Seq<McpToolV>, t: McpToolV) -> Seq<McpToolV> {
    if exists|i: int| 0 <= i < ts.len() && ts[i].name == t.name {
        let i = choose|i: int| 0 <= i < ts.len() && ts[i].name == t.name;
        ts.update(i, t)
    } else {
        ts.push(t)
    }
}

/// The first `n` tools of `new` recorded in order.
pub open spec fn register_all(ts: Seq<McpToolV>, new: Seq<McpToolV>, n: int) -> Seq<McpToolV>
    decreases n,
{
    if n <= 0 {
        ts
    } else {
        register(register_all(ts, new, n - 1), new[n - 1])
    }
}

pub proof fn lemma_register(ts: Seq<McpToolV>, t: McpToolV)
    requires
        distinct_names(ts),
    ensures
        distinct_names(register(ts, t)),
        find_tool(register(ts, t), t.name) == Some(t),
        forall|k: Seq<char>| k != t.name ==> find_tool(register(ts, t), k) == find_tool(ts, k),
{
    let r = register(ts, t);
    if exists|i: int| 0 <= i < ts.len() && ts[i].name == t.name {
        let i = choose|i: int| 0 <= i < ts.len() && ts[i].name == t.name;
        assert(r[i] == t);
        assert forall|k: Seq<char>| k != t.name implies find_tool(r, k) == find_tool(ts, k) by {
            if exists|j: int| 0 <= j < ts.len() && ts[j].name == k {
                let j = choose|j: int| 0 <= j < ts.len() && ts[j].name == k;
                assert(r[j] == ts[j]);
                let j2 = choose|j: int| 0 <= j < r.len() && r[j].name == k;
                assert(j2 == j);
            } else {
                assert forall|j: int| 0 <= j < r.len() implies r[j].name != k by {
                    if j != i {
                        assert(r[j] == ts[j]);
                    }
                }
            }
        }
        let j2 = choose|j: int| 0 <= j < r.len() && r[j].name == t.name;
        assert(j2 == i);
    } else {
        let last = ts.len() as int;
        assert(r[last] == t);
        assert forall|k: Seq<char>| k != t.name implies find_tool(r, k) == find_tool(ts, k) by {
            if exists|j: int| 0 <= j < ts.len() && ts[j].name == k {
                let j = choose|j: int| 0 <= j < ts.len() && ts[j].name == k;
                assert(r[j] == ts[j]);
                let j2 = choose|j: int| 0 <= j < r.len() && r[j].name == k;
                assert(j2 == j);
            } else {
                assert forall|j: int| 0 <= j < r.len() implies r[j].name != k by {
                    if j < last {
                        assert(r[j] == ts[j]);
                    }
                }
            }
        }
        let j2 = choose|j: int| 0 <= j < r.len() && r[j].name == t.name;
        assert(j2 == last);
    }
}

/// Law: after a tool is recorded, looking it up by name gives it back, and
/// every other name finds what it found before.
pub proof fn law_register_then_find(ts: Seq<McpToolV>, t: McpToolV, other: Seq<char>)
    requires
        distinct_names(ts),
    ensures
        find_tool(register(ts, t), t.name) == Some(t),
        other != t.name ==> find_tool(register(ts, t), other) == find_tool(ts, other),
{
    lemma_register(ts, t);
}

/// The last of the first `n` tools of `ns` that is named `name`.
pub open spec fn last_named(ns: Seq<McpToolV>, n: int, name: Seq<char>) -> Option<McpToolV>
    decreases n,
{
    if n <= 0 {
        None
    } else if ns[n - 1].name == name {
        Some(ns[n - 1])
    } else {
        last_named(ns, n - 1, name)
    }
}

/// Law: recording a list of tools keeps one tool per name, and the last
/// one wins. After the first `n` tools of `ns` are recorded, a name among
/// them finds the last tool of that name; any other name finds what it
/// found before; and no two tools share a name.
pub proof fn law_record_last_wins(ts: Seq<McpToolV>, ns: Seq<McpToolV>, n: int, name: Seq<char>)
    requires
        distinct_names(ts),
        0 <= n <= ns.len(),
    ensures
        distinct_names(register_all(ts, ns, n)),
        find_tool(register_all(ts, ns, n), name) == match last_named(ns, n, name) {
            Some(t) => Some(t),
            None => find_tool(ts, name),
        },
    decreases n,
{
    if n > 0 {
        law_record_last_wins(ts, ns, n - 1, name);
        lemma_register(register_all(ts, ns, n - 1), ns[n - 1]);
    }
}

/// Where the tool named `name` is.
fn position_of(ts: &Vec<McpTool>, name: &str) -> (r: Option<usize>)
    ensures
        match r {
            Some(i) => i < ts.len() && tools_view(ts@)[i as int].name == name@,
            None => forall|j: int| 0 <= j < ts.len() ==> tools_view(ts@)[j].name != name@,
        },
{
    let mut i: usize = 0;
    while i < ts.len()
        invariant
            i <= ts.len(),
            forall|j: int| 0 <= j < i ==> tools_view(ts@)[j].name != name@,
        decreases ts.len() - i,
    {
        if crate::text::same_text(ts[i].name.as_str(), name) {
            return Some(i);
        }
        i = i + 1;
    }
    None
}

/// The tools discovered so far, one per name, in the order their names
/// first came; a tool recorded under a name already held replaces the one
/// held.
#[derive(Debug)]
pub struct ToolRegistry {
    tools: Vec<McpTool>,
}

impl View for ToolRegistry {
    type V = Seq<McpToolV>;

    closed spec fn view(&self) -> Seq<McpToolV> {
        tools_view(self.tools@)
    }
}

impl ToolRegistry {
    #[verifier::type_invariant]
    closed spec fn inv(self) -> bool {
        distinct_names(tools_view(self.tools@))
    }

    /// No tools.
    pub fn new() -> (r: ToolRegistry)
        ensures
            r@ == Seq::<McpToolV>::empty(),
            distinct_names(r@),
    {
        let r = ToolRegistry { tools: Vec::new() };
        assert(tools_view(r.tools@) =~= Seq::<McpToolV>::empty());
        r
    }

    /// The cached tool named `name`.
    pub fn find(&self, name: &str) -> (r: Option<McpTool>)
        ensures
            match r {
                Some(t) => find_tool(self@, name@) == Some(t@),
                None => find_tool(self@, name@) is None,
            },
    {
        proof {
            use_type_invariant(self);
        }
        let ghost ts = self@;
        let mut i: usize = 0;
        while i < self.tools.len()
            invariant
                i <= self.tools.len(),
                ts == tools_view(self.tools@),
                distinct_names(ts),
                forall|j: int| 0 <= j < i ==> ts[j].name != name@,
            decreases self.tools.len() - i,
        {
            if crate::text::same_text(self.tools[i].name.as_str(), name) {
                proof {
                    assert(ts[i as int].name == name@);
                    let j = choose|j: int| 0 <= j < ts.len() && ts[j].name == name@;
                    assert(j == i);
                }
                return Some(self.tools[i].duplicate());
            }
            i = i + 1;
        }
        None
    }

    /// `list_tools`' caching: each tool recorded in turn.
    pub fn record(&mut self, tools: &Vec<McpTool>)
        ensures
            final(self)@ == register_all(old(self)@, tools_view(tools@), tools@.len() as int),
            distinct_names(final(self)@),
    {
        proof {
            use_type_invariant(&*self);
        }
        let mut ts: Vec<McpTool> = Vec::new();
        std::mem::swap(&mut ts, &mut self.tools);
        let ghost start = tools_view(ts@);
        let ghost nv = tools_view(tools@);
        let mut k: usize = 0;
        while k < tools.len()
            invariant
                k <= tools.len(),
                nv == tools_view(tools@),
                distinct_names(tools_view(ts@)),
                tools_view(ts@) == register_all(start, nv, k as int),
            decreases tools.len() - k,
        {
            let t = &tools[k];
            let ghost before = tools_view(ts@);
            proof {
                lemma_register(before, t@);
            }
            match position_of(&ts, t.name.as_str()) {
                Some(i) => {
                    proof {
                        let w = choose|j: int| 0 <= j < before.len() && before[j].name == t.name@;
                        assert(before[i as int].name == t.name@);
                        assert(w == i);
                    }
                    ts.set(i, t.duplicate());
                    assert(tools_view(ts@) =~= before.update(i as int, nv[k as int]));
                },
                None => {
                    ts.push(t.duplicate());
                    assert(tools_view(ts@) =~= before.push(nv[k as int]));
                },
            }
            assert(nv[k as int] == t@);
            k = k + 1;
        }
        self.tools = ts;
    }

    /// `get_tools`: copies of the cached tools.
    pub fn get_tools(&self) -> (r: Vec<McpTool>)
        ensures
            tools_view(r@) == self@,
            distinct_names(tools_view(r@)),
    {
        proof {
            use_type_invariant(self);
        }
        let mut out: Vec<McpTool> = Vec::new();
        let mut i: usize = 0;
        while i < self.tools.len()
            invariant
                i <= self.tools.len(),
                out.len() == i,
                forall|j: int| 0 <= j < i ==> #[trigger] out@[j]@ == self.tools@[j]@,
            decreases self.tools.len() - i,
        {
            out.push(self.tools[i].duplicate());
            i = i + 1;
        }
        assert(tools_view(out@) =~= tools_view(self.tools@));
        out
    }
}

// ------------------------------------------------------------------ launch
/// What was found on disk about the MCP server's scripts (paths as text).
#[derive(Debug)]
pub struct LaunchProbe {
    pub run_script: String,
    pub run_script_exists: bool,
    pub unix: bool,
    pub windows: bool,
    pub main_script: String,
    pub main_script_exists: bool,
    pub venv_python: String,
    pub venv_python_exists: bool,
    /// The server folder as `{:?}` prints it.
    pub mcp_dir_debug: String,
}

/// The command that starts the MCP server, and its arguments.
#[derive(Debug)]
pub struct LaunchPlan {
    pub command: String,
    pub args: Vec<String>,
}

/// `start`'s choice of command: the `run.sh` wrapper on Unix when it is
/// there; else `main.py` run by the project's virtual-environment Python, or
/// by `python` (Windows) / `python3`; else an error naming the folder.
pub fn launch_plan(p: &LaunchProbe) -> (r: Result<LaunchPlan, String>)
    ensures
        p.run_script_exists && p.unix ==> (r matches Ok(plan) && plan.command@ == p.run_script@
            && plan.args@.len() == 0),
        !(p.run_script_exists && p.unix) && p.main_script_exists ==> (r matches Ok(plan)
            && plan.args@.len() == 1 && plan.args@[0]@ == p.main_script@ && plan.command@ == if p.venv_python_exists {
            p.venv_python@
        } else if p.windows {
            "python"@
        } else {
            "python3"@
        }),
        !(p.run_script_exists && p.unix) && !p.main_script_exists ==> (r matches Err(m) && m@
            == "MCP server scripts not found at "@ + p.mcp_dir_debug@),
{
    if p.run_script_exists && p.unix {
        Ok(LaunchPlan { command: p.run_script.clone(), args: Vec::new() })
    } else if p.main_script_exists {
        let command = if p.venv_python_exists {
            p.venv_python.clone()
        } else if p.windows {
            "python".to_string()
        } else {
            "python3".to_string()
        };
        let mut args: Vec<String> = Vec::new();
        args.push(p.main_script.clone());
        Ok(LaunchPlan { command, args })
    } else {
        Err(prefixed("MCP server scripts not found at ", p.mcp_dir_debug.as_str()))
    }
}

/// What `try_wait` said of a child process.
#[derive(Debug, Clone, Copy, PartialEq, Eq, Structural)]
pub enum WaitOutcome {
    Exited,
    StillRunning,
    Failed,
}

/// Whether a child process counts as running.
pub fn running_after_wait(o: WaitOutcome) -> (r: bool)
    ensures
        r == (o == WaitOutcome::StillRunning),
{
    match o {
        WaitOutcome::StillRunning => true,
        _ => false,
    }
}

/// `ProcessManager::start_mcp_server`'s decision: nothing to do when the
/// server runs (`Ok(false)`), an error when `main.py` is missing, else
/// start it (`Ok(true)`).
pub fn process_start_decision(already_running: bool, main_py_exists: bool, main_py_debug: &str) -> (r:
    Result<bool, String>)
    ensures
        already_running ==> r == Ok::<bool, String>(false),
        !already_running && !main_py_exists ==> (r matches Err(m) && m@
            == "MCP server main.py not found at "@ + main_py_debug@),
        !already_running && main_py_exists ==> r == Ok::<bool, String>(true),
{
    if already_running {
        Ok(false)
    } else if !main_py_exists {
        Err(prefixed("MCP server main.py not found at ", main_py_debug))
    } else {
        Ok(true)
    }
}

} // verus!
