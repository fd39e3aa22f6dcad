//! The MCP server: routing of requests and the texts of its replies.
use vstd::prelude::*;
use std::path::PathBuf;
use crate::events::{Event, Kind};
use crate::planner::artifacts::{PhaseNode, WaveNode};
use crate::planner::profile::{profile_named, ProfileId};
use crate::planner::xml_plan::XmlPlan;
use crate::text::{
    chars_of, decimal, hex, owned, push_radix, push_radix_padded, push_str, str_eq, string_from,
    take_chars, zero_pad,
};

verus! {

/// Serves the swarm's tools over MCP from a planning root and an event database.
pub struct McpServer {
    pub root: PathBuf,
    pub db_path: PathBuf,
}

impl McpServer {
    /// A server over the planning tree at `root` and the events at `db_path`.
    #[must_use]
    pub fn new(root: PathBuf, db_path: PathBuf) -> (r: Self)
        ensures
            r.root == root,
            r.db_path == db_path,
    {
        Self { root, db_path }
    }
}

/// The requests the server tells apart.
#[derive(Debug, Clone, Copy, PartialEq, Eq, Structural)]
pub enum McpMethod {
    /// `initialize`: the server describes itself.
    Initialize,
    /// `initialized`: a notification, answered with nothing.
    Initialized,
    /// `tools/list`: the tools and their input schemas.
    ToolsList,
    /// `tools/call`: a call of one tool.
    ToolsCall,
    /// Any other method: answered with a method-not-found error.
    Unknown,
}

/// The request that the method name `m` asks for.
pub open spec fn spec_route(m: Seq<char>) -> McpMethod {
    if m == "initialize"@ {
        McpMethod::Initialize
    } else if m == "initialized"@ {
        McpMethod::Initialized
    } else if m == "tools/list"@ {
        McpMethod::ToolsList
    } else if m == "tools/call"@ {
        McpMethod::ToolsCall
    } else {
        McpMethod::Unknown
    }
}

/// The request that the method name `method` asks for (see `spec_route`).
pub fn route_method(method: &str) -> (r: McpMethod)
    ensures
        r == spec_route(method@),
{
    if str_eq(method, "initialize") {
        McpMethod::Initialize
    } else if str_eq(method, "initialized") {
        McpMethod::Initialized
    } else if str_eq(method, "tools/list") {
        McpMethod::ToolsList
    } else if str_eq(method, "tools/call") {
        McpMethod::ToolsCall
    } else {
        McpMethod::Unknown
    }
}

/// Whether the server writes an answer to a request of kind `m`: every request is
/// answered but the `initialized` notification.
pub fn answers(m: McpMethod) -> (r: bool)
    ensures
        r == (m != McpMethod::Initialized),
{
    match m {
        McpMethod::Initialized => false,
        _ => true,
    }
}

/// What reading the next frame of the input gave.
#[derive(Debug, Clone, Copy, PartialEq, Eq, Structural)]
pub enum FrameOutcome {
    /// A whole frame whose body is a JSON message.
    Message,
    /// A frame that could not be read as a message: a header without a length, or a
    /// body that is not JSON.
    Unreadable,
    /// The input ended (or could no longer be read).
    EndOfInput,
}

/// What the server loop does after reading a frame.
#[derive(Debug, Clone, Copy, PartialEq, Eq, Structural)]
pub enum LoopStep {
    /// Dispatch the message and write its answer.
    Dispatch,
    /// Pass over the frame and read the next one.
    Skip,
    /// Stop serving.
    Stop,
}

/// The server runs its request loop until the input ends: a message is dispatched,
/// an unreadable frame is passed over, and only the end of the input stops it.
pub open spec fn spec_serve_step(o: FrameOutcome) -> LoopStep {
    match o {
        FrameOutcome::Message => LoopStep::Dispatch,
        FrameOutcome::Unreadable => LoopStep::Skip,
        FrameOutcome::EndOfInput => LoopStep::Stop,
    }
}

/// The next step of the server loop after reading a frame (see `spec_serve_step`).
pub fn serve_step(o: FrameOutcome) -> (r: LoopStep)
    ensures
        r == spec_serve_step(o),
{
    match o {
        FrameOutcome::Message => LoopStep::Dispatch,
        FrameOutcome::Unreadable => LoopStep::Skip,
        FrameOutcome::EndOfInput => LoopStep::Stop,
    }
}

/// The tools the server offers.
#[derive(Debug, Clone, Copy, PartialEq, Eq, Structural)]
pub enum McpTool {
    PlanDecompose,
    SwarmExecute,
    SwarmExecuteWave,
    SwarmStatus,
    SwarmRetro,
    Unknown,
}

/// The tool named `n`.
pub open spec fn spec_tool(n: Seq<char>) -> McpTool {
    if n == "cowclaw_plan_decompose"@ {
        McpTool::PlanDecompose
    } else if n == "cowclaw_swarm_execute"@ {
        McpTool::SwarmExecute
    } else if n == "cowclaw_swarm_execute_wave"@ {
        McpTool::SwarmExecuteWave
    } else if n == "cowclaw_swarm_status"@ {
        McpTool::SwarmStatus
    } else if n == "cowclaw_swarm_retro"@ {
        McpTool::SwarmRetro
    } else {
        McpTool::Unknown
    }
}

/// The tool named `name` (see `spec_tool`).
pub fn route_tool(name: &str) -> (r: McpTool)
    ensures
        r == spec_tool(name@),
{
    if str_eq(name, "cowclaw_plan_decompose") {
        McpTool::PlanDecompose
    } else if str_eq(name, "cowclaw_swarm_execute") {
        McpTool::SwarmExecute
    } else if str_eq(name, "cowclaw_swarm_execute_wave") {
        McpTool::SwarmExecuteWave
    } else if str_eq(name, "cowclaw_swarm_status") {
        McpTool::SwarmStatus
    } else if str_eq(name, "cowclaw_swarm_retro") {
        McpTool::SwarmRetro
    } else {
        McpTool::Unknown
    }
}

/// The name under which a tool is listed; the empty text for `Unknown`.
pub open spec fn spec_tool_name(t: McpTool) -> Seq<char> {
    match t {
        McpTool::PlanDecompose => "cowclaw_plan_decompose"@,
        McpTool::SwarmExecute => "cowclaw_swarm_execute"@,
        McpTool::SwarmExecuteWave => "cowclaw_swarm_execute_wave"@,
        McpTool::SwarmStatus => "cowclaw_swarm_status"@,
        McpTool::SwarmRetro => "cowclaw_swarm_retro"@,
        McpTool::Unknown => ""@,
    }
}

/// The arguments a tool cannot do without, as its input schema lists them.
pub open spec fn spec_required_args(t: McpTool) -> Seq<Seq<char>> {
    match t {
        McpTool::PlanDecompose => seq!["objective"@],
        McpTool::SwarmExecute => seq!["plan_id"@],
        McpTool::SwarmExecuteWave => seq!["phase_id"@, "wave_id"@],
        McpTool::SwarmRetro => seq!["phase_id"@],
        _ => seq![],
    }
}

/// The tools the server lists, in order.
pub fn listed_tools() -> (r: Vec<McpTool>)
    ensures
        r@ == seq![
            McpTool::PlanDecompose,
            McpTool::SwarmExecute,
            McpTool::SwarmExecuteWave,
            McpTool::SwarmStatus,
            McpTool::SwarmRetro,
        ],
{
    let mut r: Vec<McpTool> = Vec::new();
    r.push(McpTool::PlanDecompose);
    r.push(McpTool::SwarmExecute);
    r.push(McpTool::SwarmExecuteWave);
    r.push(McpTool::SwarmStatus);
    r.push(McpTool::SwarmRetro);
    assert(r@ =~= seq![
        McpTool::PlanDecompose,
        McpTool::SwarmExecute,
        McpTool::SwarmExecuteWave,
        McpTool::SwarmStatus,
        McpTool::SwarmRetro,
    ]);
    r
}

/// The name under which `t` is listed (see `spec_tool_name`).
pub fn tool_name(t: McpTool) -> (r: &'static str)
    ensures
        r@ == spec_tool_name(t),
{
    match t {
        McpTool::PlanDecompose => "cowclaw_plan_decompose",
        McpTool::SwarmExecute => "cowclaw_swarm_execute",
        McpTool::SwarmExecuteWave => "cowclaw_swarm_execute_wave",
        McpTool::SwarmStatus => "cowclaw_swarm_status",
        McpTool::SwarmRetro => "cowclaw_swarm_retro",
        McpTool::Unknown => "",
    }
}

/// The required arguments of `t` (see `spec_required_args`).
pub fn required_args(t: McpTool) -> (r: Vec<&'static str>)
    ensures
        r@.map_values(|a: &str| a@) == spec_required_args(t),
{
    let mut r: Vec<&'static str> = Vec::new();
    match t {
        McpTool::PlanDecompose => {
            r.push("objective");
        },
        McpTool::SwarmExecute => {
            r.push("plan_id");
        },
        McpTool::SwarmExecuteWave => {
            r.push("phase_id");
            r.push("wave_id");
        },
        McpTool::SwarmRetro => {
            r.push("phase_id");
        },
        _ => {},
    }
    assert(r@.map_values(|a: &str| a@) =~= spec_required_args(t));
    r
}

/// The JSON type of a tool argument.
#[derive(Debug, Clone, Copy, PartialEq, Eq, Structural)]
pub enum ArgType {
    Text,
    Integer,
}

/// The default of a tool argument.
#[derive(Debug, Clone, Copy, PartialEq, Eq)]
pub enum ArgDefault {
    Text(&'static str),
    Integer(u64),
}

/// An argument of a tool's input schema: its name, type and default.
#[derive(Debug, Clone, Copy)]
pub struct ToolArg {
    pub name: &'static str,
    pub kind: ArgType,
    pub default: Option<ArgDefault>,
}

/// A default as a plain value.
pub enum DefaultView {
    Text(Seq<char>),
    Integer(nat),
}

/// An argument as plain values.
pub open spec fn arg_view(a: ToolArg) -> (Seq<char>, ArgType, Option<DefaultView>) {
    (
        a.name@,
        a.kind,
        match a.default {
            Some(ArgDefault::Text(t)) => Some(DefaultView::Text(t@)),
            Some(ArgDefault::Integer(n)) => Some(DefaultView::Integer(n as nat)),
            None => None,
        },
    )
}

/// The one-line description of a tool; the empty text for `Unknown`.
pub open spec fn spec_tool_description(t: McpTool) -> Seq<char> {
    match t {
        McpTool::PlanDecompose => "Decompose an objective into phases and plans on disk"@,
        McpTool::SwarmExecute => "Execute one plan in a fresh worker context"@,
        McpTool::SwarmExecuteWave => "Execute a whole wave in parallel"@,
        McpTool::SwarmStatus => "Query sessions, workers, events and gate results"@,
        McpTool::SwarmRetro => "Force D-rule retro for a completed phase"@,
        McpTool::Unknown => ""@,
    }
}

/// The arguments of a tool's input schema, in order.
pub open spec fn spec_tool_args(t: McpTool) -> Seq<(Seq<char>, ArgType, Option<DefaultView>)> {
    match t {
        McpTool::PlanDecompose => seq![
            ("objective"@, ArgType::Text, None),
            ("profile"@, ArgType::Text, Some(DefaultView::Text("P4"@))),
            ("phase_scope"@, ArgType::Text, None),
        ],
        McpTool::SwarmExecute => seq![("plan_id"@, ArgType::Text, None)],
        McpTool::SwarmExecuteWave => seq![
            ("phase_id"@, ArgType::Text, None),
            ("wave_id"@, ArgType::Text, None),
            ("max_parallel_workers"@, ArgType::Integer, Some(DefaultView::Integer(DEFAULT_MAX_PARALLEL as nat))),
        ],
        McpTool::SwarmStatus => seq![
            ("session_id"@, ArgType::Text, None),
            ("n"@, ArgType::Integer, Some(DefaultView::Integer(DEFAULT_STATUS_COUNT as nat))),
        ],
        McpTool::SwarmRetro => seq![("phase_id"@, ArgType::Text, None)],
        McpTool::Unknown => seq![],
    }
}

/// The description of `t` (see `spec_tool_description`).
pub fn tool_description(t: McpTool) -> (r: &'static str)
    ensures
        r@ == spec_tool_description(t),
{
    match t {
        McpTool::PlanDecompose => "Decompose an objective into phases and plans on disk",
        McpTool::SwarmExecute => "Execute one plan in a fresh worker context",
        McpTool::SwarmExecuteWave => "Execute a whole wave in parallel",
        McpTool::SwarmStatus => "Query sessions, workers, events and gate results",
        McpTool::SwarmRetro => "Force D-rule retro for a completed phase",
        McpTool::Unknown => "",
    }
}

/// The arguments of `t` (see `spec_tool_args`).
pub fn tool_args(t: McpTool) -> (r: Vec<ToolArg>)
    ensures
        r@.map_values(|a: ToolArg| arg_view(a)) == spec_tool_args(t),
{
    let mut r: Vec<ToolArg> = Vec::new();
    match t {
        McpTool::PlanDecompose => {
            r.push(ToolArg { name: "objective", kind: ArgType::Text, default: None });
            r.push(ToolArg { name: "profile", kind: ArgType::Text, default: Some(ArgDefault::Text("P4")) });
            r.push(ToolArg { name: "phase_scope", kind: ArgType::Text, default: None });
        },
        McpTool::SwarmExecute => {
            r.push(ToolArg { name: "plan_id", kind: ArgType::Text, default: None });
        },
        McpTool::SwarmExecuteWave => {
            r.push(ToolArg { name: "phase_id", kind: ArgType::Text, default: None });
            r.push(ToolArg { name: "wave_id", kind: ArgType::Text, default: None });
            r.push(ToolArg {
                name: "max_parallel_workers",
                kind: ArgType::Integer,
                default: Some(ArgDefault::Integer(4)),
            });
        },
        McpTool::SwarmStatus => {
            r.push(ToolArg { name: "session_id", kind: ArgType::Text, default: None });
            r.push(ToolArg { name: "n", kind: ArgType::Integer, default: Some(ArgDefault::Integer(20)) });
        },
        McpTool::SwarmRetro => {
            r.push(ToolArg { name: "phase_id", kind: ArgType::Text, default: None });
        },
        McpTool::Unknown => {},
    }
    assert(r@.map_values(|a: ToolArg| arg_view(a)) =~= spec_tool_args(t));
    r
}

/// A tool's required arguments are among its arguments.
pub proof fn required_args_are_listed(t: McpTool, i: int)
    requires
        0 <= i < spec_required_args(t).len(),
    ensures
        exists|j: int| 0 <= j < spec_tool_args(t).len() && (#[trigger] spec_tool_args(t)[j]).0 == spec_required_args(t)[i],
{
    match t {
        McpTool::SwarmExecuteWave => {
            if i == 0 {
                assert(spec_tool_args(t)[0].0 == spec_required_args(t)[0]);
            } else {
                assert(spec_tool_args(t)[1].0 == spec_required_args(t)[1]);
            }
        },
        _ => {
            assert(spec_tool_args(t)[0].0 == spec_required_args(t)[0]);
        },
    }
}

/// Every listed tool's name routes back to that tool.
pub proof fn listed_names_route_back(t: McpTool)
    requires
        t != McpTool::Unknown,
    ensures
        spec_tool(spec_tool_name(t)) == t,
{
    reveal_strlit("cowclaw_plan_decompose");
    reveal_strlit("cowclaw_swarm_execute");
    reveal_strlit("cowclaw_swarm_execute_wave");
    reveal_strlit("cowclaw_swarm_status");
    reveal_strlit("cowclaw_swarm_retro");
    assert("cowclaw_plan_decompose"@[8] != "cowclaw_swarm_execute"@[8]);
    assert("cowclaw_plan_decompose"@[8] != "cowclaw_swarm_execute_wave"@[8]);
    assert("cowclaw_plan_decompose"@[8] != "cowclaw_swarm_status"@[8]);
    assert("cowclaw_plan_decompose"@[8] != "cowclaw_swarm_retro"@[8]);
    assert("cowclaw_swarm_execute"@.len() != "cowclaw_swarm_execute_wave"@.len());
    assert("cowclaw_swarm_execute"@[14] != "cowclaw_swarm_status"@[14]);
    assert("cowclaw_swarm_execute"@[14] != "cowclaw_swarm_retro"@[14]);
    assert("cowclaw_swarm_execute_wave"@[14] != "cowclaw_swarm_status"@[14]);
    assert("cowclaw_swarm_execute_wave"@[14] != "cowclaw_swarm_retro"@[14]);
    assert("cowclaw_swarm_status"@[14] != "cowclaw_swarm_retro"@[14]);
}

/// The message of the error for an unknown method.
pub fn method_not_found(method: &str) -> (r: String)
    ensures
        r@ == "method not found: "@ + method@,
{
    let mut r = owned("method not found: ");
    push_str(&mut r, method);
    r
}

/// The message of the error for an unknown tool.
pub fn unknown_tool(name: &str) -> (r: String)
    ensures
        r@ == "unknown tool: "@ + name@,
{
    let mut r = owned("unknown tool: ");
    push_str(&mut r, name);
    r
}

/// The message of the error for a missing argument.
pub fn missing_argument(arg: &str) -> (r: String)
    ensures
        r@ == "missing "@ + arg@,
{
    let mut r = owned("missing ");
    push_str(&mut r, arg);
    r
}

/// The profile a tool argument names: `P1` .. `P9`, P4 for anything else.
pub fn parse_profile(s: &str) -> (r: ProfileId)
    ensures
        r == match profile_named(s@) {
            Some(p) => p,
            None => ProfileId::P4,
        },
{
    match ProfileId::from_name(s) {
        Some(p) => p,
        None => ProfileId::P4,
    }
}

/// The first `max` characters of `s` (all of it when it is shorter).
pub fn truncate_id(s: &str, max: usize) -> (r: String)
    ensures
        r@ == s@.take(if max < s@.len() { max as int } else { s@.len() as int }),
{
    let v = chars_of(s);
    let t = take_chars(&v, max);
    string_from(&t)
}

/// The id of the worker that runs the plan `plan_id`: `worker-` and the first eight
/// characters of the plan id.
pub open spec fn worker_id_text(plan_id: Seq<char>) -> Seq<char> {
    "worker-"@ + plan_id.take(if 8 < plan_id.len() { 8 } else { plan_id.len() as int })
}

/// The id of the worker that runs the plan `plan_id` (see `worker_id_text`).
pub fn worker_id(plan_id: &str) -> (r: String)
    ensures
        r@ == worker_id_text(plan_id@),
{
    let mut r = owned("worker-");
    let t = truncate_id(plan_id, 8);
    push_str(&mut r, t.as_str());
    r
}

/// A session id: the prefix, a hyphen, and at least eight hex digits of the clock's
/// nanoseconds.
pub open spec fn session_id_text(prefix: Seq<char>, clock_nanos: u32) -> Seq<char> {
    prefix + "-"@ + zero_pad(hex(clock_nanos as nat), 8)
}

/// A session id from `prefix` and the clock's nanoseconds (see `session_id_text`).
pub fn session_id(prefix: &str, clock_nanos: u32) -> (r: String)
    ensures
        r@ == session_id_text(prefix@, clock_nanos),
{
    let mut r = owned(prefix);
    push_str(&mut r, "-");
    push_radix_padded(&mut r, clock_nanos as u64, 16, 8);
    assert(r@ =~= session_id_text(prefix@, clock_nanos));
    r
}

/// The plan ids of one wave.
pub open spec fn wave_plan_id_seq(w: WaveNode) -> Seq<Seq<char>> {
    w.plans@.map_values(|p: XmlPlan| p.id@)
}

/// The wave `w` is the wave `wave_id` of the phase `phase_id`: its id is the wave id
/// alone or `phase/wave`.
pub open spec fn is_wave(w: WaveNode, phase_id: Seq<char>, wave_id: Seq<char>) -> bool {
    w.id@ == wave_id || w.id@ == phase_id + "/"@ + wave_id
}

/// The plan ids of the waves among `ws` that are the wave `wave_id`, in order.
pub open spec fn waves_plan_ids(ws: Seq<WaveNode>, phase_id: Seq<char>, wave_id: Seq<char>) -> Seq<Seq<char>>
    decreases ws.len(),
{
    if ws.len() == 0 {
        seq![]
    } else {
        waves_plan_ids(ws.drop_last(), phase_id, wave_id) + if is_wave(ws.last(), phase_id, wave_id) {
            wave_plan_id_seq(ws.last())
        } else {
            seq![]
        }
    }
}

/// The plan ids of the wave `wave_id` of the phase `phase_id` in the tree, in order.
pub open spec fn phases_plan_ids(ps: Seq<PhaseNode>, phase_id: Seq<char>, wave_id: Seq<char>) -> Seq<Seq<char>>
    decreases ps.len(),
{
    if ps.len() == 0 {
        seq![]
    } else {
        phases_plan_ids(ps.drop_last(), phase_id, wave_id) + if ps.last().id@ == phase_id {
            waves_plan_ids(ps.last().waves@, phase_id, wave_id)
        } else {
            seq![]
        }
    }
}

/// The texts of a list of strings.
pub open spec fn string_texts(v: Seq<String>) -> Seq<Seq<char>> {
    v.map_values(|s: String| s@)
}

/// Appends the plan ids of `w` to `out`.
fn push_wave_ids(out: &mut Vec<String>, w: &WaveNode)
    ensures
        string_texts(final(out)@) == string_texts(old(out)@) + wave_plan_id_seq(*w),
{
    let ghost start = string_texts(out@);
    let mut i: usize = 0;
    while i < w.plans.len()
        invariant
            i <= w.plans.len(),
            string_texts(out@) == start + wave_plan_id_seq(*w).take(i as int),
        decreases w.plans.len() - i,
    {
        let ghost prev = out@;
        let id = w.plans[i].id.clone();
        assert(id@ == wave_plan_id_seq(*w)[i as int]);
        out.push(id);
        assert(out@ == prev.push(id));
        assert(string_texts(out@) =~= string_texts(prev).push(id@));
        assert(wave_plan_id_seq(*w).take(i + 1) =~= wave_plan_id_seq(*w).take(i as int).push(id@));
        assert(string_texts(out@) =~= start + wave_plan_id_seq(*w).take(i + 1));
        i = i + 1;
    }
    assert(wave_plan_id_seq(*w).take(w.plans.len() as int) == wave_plan_id_seq(*w));
}

/// The plan ids of the wave `wave_id` of the phase `phase_id` (see
/// `phases_plan_ids`).
pub fn wave_plan_ids(phases: &Vec<PhaseNode>, phase_id: &str, wave_id: &str) -> (r: Vec<String>)
    ensures
        string_texts(r@) == phases_plan_ids(phases@, phase_id@, wave_id@),
{
    let mut full = owned(phase_id);
    push_str(&mut full, "/");
    push_str(&mut full, wave_id);
    let mut out: Vec<String> = Vec::new();
    let mut i: usize = 0;
    assert(string_texts(out@) =~= seq![]);
    while i < phases.len()
        invariant
            i <= phases.len(),
            full@ == phase_id@ + "/"@ + wave_id@,
            string_texts(out@) == phases_plan_ids(phases@.take(i as int), phase_id@, wave_id@),
        decreases phases.len() - i,
    {
        let p = &phases[i];
        let ghost before = string_texts(out@);
        if str_eq(p.id.as_str(), phase_id) {
            let mut j: usize = 0;
            while j < p.waves.len()
                invariant
                    j <= p.waves.len(),
                    full@ == phase_id@ + "/"@ + wave_id@,
                    string_texts(out@) == before + waves_plan_ids(p.waves@.take(j as int), phase_id@, wave_id@),
                decreases p.waves.len() - j,
            {
                let w = &p.waves[j];
                assert(p.waves@.take(j + 1).drop_last() == p.waves@.take(j as int));
                if str_eq(w.id.as_str(), wave_id) || str_eq(w.id.as_str(), full.as_str()) {
                    push_wave_ids(&mut out, w);
                }
                assert(string_texts(out@) =~= before + waves_plan_ids(p.waves@.take(j + 1), phase_id@, wave_id@));
                j = j + 1;
            }
            assert(p.waves@.take(p.waves.len() as int) == p.waves@);
        }
        assert(phases@.take(i + 1).drop_last() == phases@.take(i as int));
        assert(string_texts(out@) =~= phases_plan_ids(phases@.take(i + 1), phase_id@, wave_id@));
        i = i + 1;
    }
    assert(phases@.take(phases.len() as int) == phases@);
    out
}

/// The event marks the end of a worker of the phase `phase_id`.
pub open spec fn completes_phase(e: Event, phase_id: Seq<char>) -> bool {
    &&& e.phase_id matches Some(p) && p@ == phase_id
    &&& e.kind == Kind::WorkerEnd
}

/// How many of `es` mark the end of a worker of the phase `phase_id`.
pub open spec fn count_completed(es: Seq<Event>, phase_id: Seq<char>) -> nat
    decreases es.len(),
{
    if es.len() == 0 {
        0
    } else {
        count_completed(es.drop_last(), phase_id) + if completes_phase(es.last(), phase_id) {
            1nat
        } else {
            0nat
        }
    }
}

/// How many of `events` mark the end of a worker of the phase `phase_id` (see
/// `count_completed`).
pub fn completed_workers(events: &Vec<Event>, phase_id: &str) -> (r: usize)
    ensures
        r == count_completed(events@, phase_id@),
{
    let mut n: usize = 0;
    let mut i: usize = 0;
    while i < events.len()
        invariant
            i <= events.len(),
            n == count_completed(events@.take(i as int), phase_id@),
            n <= i,
        decreases events.len() - i,
    {
        let e = &events[i];
        assert(events@.take(i + 1).drop_last() == events@.take(i as int));
        let hit = match &e.phase_id {
            Some(p) => str_eq(p.as_str(), phase_id) && e.kind == Kind::WorkerEnd,
            None => false,
        };
        if hit {
            n = n + 1;
        }
        i = i + 1;
    }
    assert(events@.take(events.len() as int) == events@);
    n
}

/// The retrospective of a phase that the retro tool writes.
pub open spec fn retro_tool_text(phase_id: Seq<char>, completed: nat) -> Seq<char> {
    "---\nphase_id: "@ + phase_id + "\ngenerated_by: cowclaw_swarm_retro\n---\n# Phase Retrospective: "@
        + phase_id + "\n\n## Completed workers\n\n"@ + decimal(completed)
        + " worker(s) completed\n\n## Do differently next time\n\n- (to be filled by reflection)\n"@
}

/// The retrospective of the phase `phase_id` with `completed` finished workers (see
/// `retro_tool_text`).
pub fn retro_markdown(phase_id: &str, completed: usize) -> (r: String)
    ensures
        r@ == retro_tool_text(phase_id@, completed as nat),
{
    let mut s = owned("---\nphase_id: ");
    push_str(&mut s, phase_id);
    push_str(&mut s, "\ngenerated_by: cowclaw_swarm_retro\n---\n# Phase Retrospective: ");
    push_str(&mut s, phase_id);
    push_str(&mut s, "\n\n## Completed workers\n\n");
    push_radix(&mut s, completed as u64, 10);
    push_str(&mut s, " worker(s) completed\n\n## Do differently next time\n\n- (to be filled by reflection)\n");
    assert(s@ =~= retro_tool_text(phase_id@, completed as nat));
    s
}

/// The batches in which `len` plans run, at most `size` at a time: consecutive
/// ranges `[start, end)` covering `0..len` in order (`slice::chunks`).
pub fn batch_bounds(len: usize, size: usize) -> (r: Vec<(usize, usize)>)
    requires
        size > 0,
    ensures
        r.len() > 0 ==> r@[0].0 == 0,
        r.len() == 0 <==> len == 0,
        forall|i: int|
            0 <= i < r.len() ==> (#[trigger] r@[i]).0 < r@[i].1 <= len && r@[i].1 - r@[i].0 <= size
                && (r@[i].1 < len ==> r@[i].1 - r@[i].0 == size),
        forall|i: int| 0 <= i < r.len() - 1 ==> (#[trigger] r@[i]).1 == r@[i + 1].0,
        r.len() > 0 ==> r@[r.len() - 1].1 == len,
{
    let mut r: Vec<(usize, usize)> = Vec::new();
    let mut start: usize = 0;
    while start < len
        invariant
            size > 0,
            start <= len,
            r.len() == 0 <==> start == 0,
            r.len() > 0 ==> r@[0].0 == 0 && r@[r.len() - 1].1 == start,
            forall|i: int|
                0 <= i < r.len() ==> (#[trigger] r@[i]).0 < r@[i].1 <= len && r@[i].1 - r@[i].0 <= size
                    && (r@[i].1 < len ==> r@[i].1 - r@[i].0 == size),
            forall|i: int| 0 <= i < r.len() - 1 ==> (#[trigger] r@[i]).1 == r@[i + 1].0,
        decreases len - start,
    {
        let end = if len - start > size { start + size } else { len };
        r.push((start, end));
        start = end;
    }
    r
}

/// The workers of a wave that run side by side, unless the call says otherwise.
pub const DEFAULT_MAX_PARALLEL: usize = 4;

/// The events the status tool shows, unless the call says otherwise.
pub const DEFAULT_STATUS_COUNT: usize = 20;

/// The events the retro tool looks back over.
pub const RETRO_EVENT_WINDOW: usize = 200;

/// The number of repeated errors after which a tool-run worker counts as stuck.
pub const WORKER_STUCK_THRESHOLD: usize = 3;

} // verus!
