//! Core data types shared by the orchestrator, the memory store and the
//! sandbox: task status and priority, memory categories, and the push
//! whitelist types.

use vstd::prelude::*;

use crate::strutil::str_eq;

verus! {

/// Status of a task in the orchestrator's state machine.
///
/// `Pending -> Running -> {Completed | Failed}`, with `Running -> Blocked`
/// reachable only through explicit cancellation.
#[derive(Debug, Clone, Copy, PartialEq, Eq, Structural)]
pub enum TaskStatus {
    Pending,
    Running,
    Completed,
    Failed,
    Blocked,
}

impl TaskStatus {
    /// The persisted lower-case label of this status.
    pub fn as_str(&self) -> (s: &'static str)
        ensures
            s@ == self.spec_str(),
    {
        proof {
            reveal_strlit("pending");
            reveal_strlit("running");
            reveal_strlit("completed");
            reveal_strlit("failed");
            reveal_strlit("blocked");
        }
        match self {
            TaskStatus::Pending => "pending",
            TaskStatus::Running => "running",
            TaskStatus::Completed => "completed",
            TaskStatus::Failed => "failed",
            TaskStatus::Blocked => "blocked",
        }
    }

    /// The label of each status, as stored in the task table.
    pub open spec fn spec_str(self) -> Seq<char> {
        match self {
            TaskStatus::Pending => "pending"@,
            TaskStatus::Running => "running"@,
            TaskStatus::Completed => "completed"@,
            TaskStatus::Failed => "failed"@,
            TaskStatus::Blocked => "blocked"@,
        }
    }

    /// Whether this status is terminal for the ordinary execution flow.
    pub fn is_terminal(&self) -> (b: bool)
        ensures
            b == self.spec_is_terminal(),
    {
        match self {
            TaskStatus::Completed => true,
            TaskStatus::Failed => true,
            TaskStatus::Blocked => true,
            _ => false,
        }
    }

    pub open spec fn spec_is_terminal(self) -> bool {
        self == TaskStatus::Completed || self == TaskStatus::Failed || self == TaskStatus::Blocked
    }
}

impl Default for TaskStatus {
    fn default() -> (s: Self)
        ensures
            s == TaskStatus::Pending,
    {
        TaskStatus::Pending
    }
}

/// Parse a persisted status label; unknown labels read as `Pending`,
/// matching how rows written by older versions are treated.
pub fn status_from_str(s: &str) -> (r: TaskStatus)
    ensures
        r == spec_status_from_str(s@),
{
    proof {
        reveal_strlit("pending");
        reveal_strlit("running");
        reveal_strlit("completed");
        reveal_strlit("failed");
        reveal_strlit("blocked");
    }
    if str_eq(s, "running") {
        TaskStatus::Running
    } else if str_eq(s, "completed") {
        TaskStatus::Completed
    } else if str_eq(s, "failed") {
        TaskStatus::Failed
    } else if str_eq(s, "blocked") {
        TaskStatus::Blocked
    } else {
        TaskStatus::Pending
    }
}

pub open spec fn spec_status_from_str(s: Seq<char>) -> TaskStatus {
    if s == "running"@ {
        TaskStatus::Running
    } else if s == "completed"@ {
        TaskStatus::Completed
    } else if s == "failed"@ {
        TaskStatus::Failed
    } else if s == "blocked"@ {
        TaskStatus::Blocked
    } else {
        TaskStatus::Pending
    }
}

/// The status labels round-trip: parsing the label of any status yields
/// that status back.
pub proof fn lemma_status_label_round_trip(s: TaskStatus)
    ensures
        spec_status_from_str(s.spec_str()) == s,
{
    reveal_strlit("pending");
    reveal_strlit("running");
    reveal_strlit("completed");
    reveal_strlit("failed");
    reveal_strlit("blocked");
    assert("pending"@[0] != "running"@[0]);
    assert("pending"@[0] != "blocked"@[0]);
    assert("running"@[0] != "blocked"@[0]);
    assert("pending"@.len() != "completed"@.len());
    assert("pending"@.len() != "failed"@.len());
    assert("running"@.len() != "completed"@.len());
    assert("running"@.len() != "failed"@.len());
    assert("completed"@.len() != "failed"@.len());
    assert("completed"@.len() != "blocked"@.len());
    assert("failed"@.len() != "blocked"@.len());
}

/// Priority of a task.
#[derive(Debug, Clone, Copy, PartialEq, Eq, Structural)]
pub enum TaskPriority {
    Low,
    Medium,
    High,
}

impl TaskPriority {
    /// The persisted integer encoding of this priority.
    pub fn as_i32(&self) -> (v: i32)
        ensures
            v == self.spec_as_i32(),
    {
        match self {
            TaskPriority::Low => 0,
            TaskPriority::Medium => 1,
            TaskPriority::High => 2,
        }
    }

    pub open spec fn spec_as_i32(self) -> i32 {
        match self {
            TaskPriority::Low => 0,
            TaskPriority::Medium => 1,
            TaskPriority::High => 2,
        }
    }

    /// Decode a persisted priority; out-of-range values read as `Low`.
    pub fn from_i32(value: i32) -> (p: Self)
        ensures
            p == TaskPriority::spec_from_i32(value),
    {
        match value {
            0 => TaskPriority::Low,
            1 => TaskPriority::Medium,
            2 => TaskPriority::High,
            _ => TaskPriority::Low,
        }
    }

    pub open spec fn spec_from_i32(value: i32) -> TaskPriority {
        if value == 1 {
            TaskPriority::Medium
        } else if value == 2 {
            TaskPriority::High
        } else {
            TaskPriority::Low
        }
    }
}

impl Default for TaskPriority {
    fn default() -> (p: Self)
        ensures
            p == TaskPriority::Medium,
    {
        TaskPriority::Medium
    }
}

/// The priority encoding round-trips: decoding the encoding of any
/// priority yields that priority back.
pub proof fn lemma_priority_encoding_round_trip(p: TaskPriority)
    ensures
        TaskPriority::spec_from_i32(p.spec_as_i32()) == p,
{
}

/// A task row as the orchestrator sees it.  Timestamps are epoch seconds;
/// the caller converts to and from its own date-time representation.
#[derive(Debug, Clone)]
pub struct Task {
    pub id: i64,
    pub task_id: String,
    pub parent_id: Option<i64>,
    pub title: String,
    pub description: Option<String>,
    pub group_name: String,
    pub completion_criteria: Option<String>,
    pub status: TaskStatus,
    pub priority: TaskPriority,
    pub lock_holder: Option<String>,
    pub lock_time: Option<i64>,
    pub result: Option<String>,
    pub error: Option<String>,
    pub workspace_dir: Option<String>,
    pub sandboxed: bool,
    pub allow_network: bool,
    pub max_memory: Option<String>,
    pub max_cpu: Option<i32>,
    pub created_by: Option<String>,
    pub created_at: i64,
    pub started_at: Option<i64>,
    pub completed_at: Option<i64>,
}

/// A request to create a task, as decoded from the API layer.
#[derive(Debug, Clone)]
pub struct CreateTaskRequest {
    pub parent_id: Option<i64>,
    pub title: String,
    pub description: Option<String>,
    pub group_name: Option<String>,
    pub completion_criteria: Option<String>,
    pub priority: Option<String>,
    pub workspace_dir: Option<String>,
    pub sandboxed: Option<bool>,
    pub allow_network: Option<bool>,
    pub max_memory: Option<String>,
    pub max_cpu: Option<i32>,
    pub created_by: Option<String>,
}

/// Filter for listing tasks.
#[derive(Debug, Clone)]
pub struct TaskFilter {
    pub status: Option<TaskStatus>,
    pub group_name: Option<String>,
    pub parent_id: Option<i64>,
    pub limit: Option<usize>,
    pub offset: Option<usize>,
}

impl Default for TaskFilter {
    fn default() -> (f: Self)
        ensures
            f.status is None,
            f.group_name is None,
            f.parent_id is None,
            f.limit is None,
            f.offset is None,
    {
        TaskFilter {
            status: None,
            group_name: None,
            parent_id: None,
            limit: None,
            offset: None,
        }
    }
}

/// Status of a registered worker.
#[derive(Debug, Clone, Copy, PartialEq, Eq, Structural)]
pub enum WorkerStatus {
    Active,
    Inactive,
}

impl Default for WorkerStatus {
    fn default() -> (s: Self)
        ensures
            s == WorkerStatus::Active,
    {
        WorkerStatus::Active
    }
}

/// Kind of a registered worker.
#[derive(Debug, Clone, Copy, PartialEq, Eq, Structural)]
pub enum WorkerType {
    Local,
    Remote,
}

impl Default for WorkerType {
    fn default() -> (t: Self)
        ensures
            t == WorkerType::Local,
    {
        WorkerType::Local
    }
}

/// A registered worker.  `last_heartbeat` and `created_at` are epoch
/// seconds.
#[derive(Debug, Clone)]
pub struct Worker {
    pub id: String,
    pub group_name: String,
    pub worker_type: WorkerType,
    pub capabilities: Vec<String>,
    pub status: WorkerStatus,
    pub last_heartbeat: i64,
    pub created_at: i64,
}

/// A worker registration request.
#[derive(Debug, Clone)]
pub struct WorkerRegistration {
    pub worker_id: String,
    pub worker_name: Option<String>,
    pub group_name: String,
    pub platform: Option<String>,
    pub capabilities: Vec<String>,
}

/// Health-check payload.
#[derive(Debug, Clone)]
pub struct HealthResponse {
    pub status: String,
    pub version: String,
    pub uptime: u64,
    pub mode: String,
}

/// Uniform envelope for API results.
#[derive(Debug, Clone)]
pub struct ApiResponse<T> {
    pub success: bool,
    pub data: Option<T>,
    pub error: Option<String>,
}

/// Category of a memory entry.
#[derive(Debug, Clone, Copy, PartialEq, Eq, Hash, Structural)]
pub enum MemoryCategory {
    Execution,
    Context,
    Result,
    Error,
    Checkpoint,
}

impl MemoryCategory {
    /// The lower-case label used by the API layer.
    pub fn as_str(&self) -> (s: &'static str)
        ensures
            s@ == self.spec_str(),
    {
        proof {
            reveal_strlit("execution");
            reveal_strlit("context");
            reveal_strlit("result");
            reveal_strlit("error");
            reveal_strlit("checkpoint");
        }
        match self {
            MemoryCategory::Execution => "execution",
            MemoryCategory::Context => "context",
            MemoryCategory::Result => "result",
            MemoryCategory::Error => "error",
            MemoryCategory::Checkpoint => "checkpoint",
        }
    }

    pub open spec fn spec_str(self) -> Seq<char> {
        match self {
            MemoryCategory::Execution => "execution"@,
            MemoryCategory::Context => "context"@,
            MemoryCategory::Result => "result"@,
            MemoryCategory::Error => "error"@,
            MemoryCategory::Checkpoint => "checkpoint"@,
        }
    }
}

/// Parse a category label from the API layer; unknown labels read as
/// no category.
pub fn category_from_str(s: &str) -> (r: Option<MemoryCategory>)
    ensures
        r == spec_category_from_str(s@),
{
    proof {
        reveal_strlit("execution");
        reveal_strlit("context");
        reveal_strlit("result");
        reveal_strlit("error");
        reveal_strlit("checkpoint");
    }
    if str_eq(s, "execution") {
        Some(MemoryCategory::Execution)
    } else if str_eq(s, "context") {
        Some(MemoryCategory::Context)
    } else if str_eq(s, "result") {
        Some(MemoryCategory::Result)
    } else if str_eq(s, "error") {
        Some(MemoryCategory::Error)
    } else if str_eq(s, "checkpoint") {
        Some(MemoryCategory::Checkpoint)
    } else {
        None
    }
}

pub open spec fn spec_category_from_str(s: Seq<char>) -> Option<MemoryCategory> {
    if s == "execution"@ {
        Some(MemoryCategory::Execution)
    } else if s == "context"@ {
        Some(MemoryCategory::Context)
    } else if s == "result"@ {
        Some(MemoryCategory::Result)
    } else if s == "error"@ {
        Some(MemoryCategory::Error)
    } else if s == "checkpoint"@ {
        Some(MemoryCategory::Checkpoint)
    } else {
        None
    }
}

/// The category labels round-trip.
pub proof fn lemma_category_label_round_trip(c: MemoryCategory)
    ensures
        spec_category_from_str(c.spec_str()) == Some(c),
{
    reveal_strlit("execution");
    reveal_strlit("context");
    reveal_strlit("result");
    reveal_strlit("error");
    reveal_strlit("checkpoint");
    assert("execution"@.len() != "context"@.len());
    assert("execution"@.len() != "result"@.len());
    assert("execution"@.len() != "error"@.len());
    assert("execution"@.len() != "checkpoint"@.len());
    assert("context"@.len() != "result"@.len());
    assert("context"@.len() != "error"@.len());
    assert("context"@.len() != "checkpoint"@.len());
    assert("result"@.len() != "error"@.len());
    assert("result"@.len() != "checkpoint"@.len());
    assert("error"@.len() != "checkpoint"@.len());
}

/// Domain of a memory entry: private entries never leave the node.
#[derive(Debug, Clone, Copy, PartialEq, Eq, Hash, Structural)]
pub enum MemoryDomain {
    Private,
    Public,
}

impl Default for MemoryDomain {
    fn default() -> (d: Self)
        ensures
            d == MemoryDomain::Public,
    {
        MemoryDomain::Public
    }
}

/// The domain a pushed memory falls into when none is named: public, the
/// conservative choice.
pub fn default_memory_domain() -> (d: MemoryDomain)
    ensures
        d == MemoryDomain::Public,
{
    MemoryDomain::Public
}

/// The namespace a pushed memory falls into when none is named.
pub fn default_namespace() -> (s: String)
    ensures
        s@ == "default"@,
{
    String::from_str("default")
}

/// A memory search request, as decoded from the API layer.
#[derive(Debug, Clone)]
pub struct MemorySearchQuery {
    pub q: Option<String>,
    pub category: Option<String>,
    pub task_id: Option<String>,
    pub limit: Option<usize>,
}

/// Kind of an experience summary.
#[derive(Debug, Clone, Copy, PartialEq, Eq, Structural)]
pub enum ExperienceType {
    SuccessPattern,
    FailurePattern,
    Optimization,
    BestPractice,
}

/// Status of a push receipt.
#[derive(Debug, Clone, Copy, PartialEq, Eq, Structural)]
pub enum ReceiptStatus {
    Confirmed,
    Pending,
    Rejected,
    Timeout,
}

impl ReceiptStatus {
    /// The lower-case label of this receipt status.
    pub fn as_str(&self) -> (s: &'static str)
        ensures
            s@ == self.spec_str(),
    {
        proof {
            reveal_strlit("confirmed");
            reveal_strlit("pending");
            reveal_strlit("rejected");
            reveal_strlit("timeout");
        }
        match self {
            ReceiptStatus::Confirmed => "confirmed",
            ReceiptStatus::Pending => "pending",
            ReceiptStatus::Rejected => "rejected",
            ReceiptStatus::Timeout => "timeout",
        }
    }

    pub open spec fn spec_str(self) -> Seq<char> {
        match self {
            ReceiptStatus::Confirmed => "confirmed"@,
            ReceiptStatus::Pending => "pending"@,
            ReceiptStatus::Rejected => "rejected"@,
            ReceiptStatus::Timeout => "timeout"@,
        }
    }
}

/// An encrypted payload for private-domain memory content.
#[derive(Debug, Clone)]
pub struct EncryptedVec {
    pub ciphertext: Vec<u8>,
    pub nonce: [u8; 12],
    pub tag: [u8; 16],
}

/// The content of one pushed memory.  Timestamps are epoch seconds.
#[derive(Debug, Clone)]
pub struct MemoryPayload {
    pub memory_id: String,
    pub key: String,
    /// The value in its serialized form.
    pub value: String,
    pub category: MemoryCategory,
    pub domain: MemoryDomain,
    pub namespace: String,
    pub timestamp: i64,
    pub expires_at: Option<i64>,
}

/// A message of the cross-node push protocol.
#[derive(Debug, Clone)]
pub enum PushMessage {
    /// First push of a memory.
    Create(MemoryPayload),
    /// Content update.
    Update(MemoryPayload),
    /// Tombstone.
    Delete { memory_id: String, reason: String },
    /// Forced removal of a pushed memory.
    Revoke { memory_id: String, timestamp: i64 },
}

/// Progress of revoking a pushed memory from its targets.
#[derive(Debug, Clone)]
pub struct RevokeStatus {
    pub memory_id: String,
    pub total_targets: usize,
    pub confirmed: usize,
    pub pending: usize,
    pub failed: usize,
    pub details: Vec<RevokeDetail>,
}

/// One target's answer to a revocation.
#[derive(Debug, Clone)]
pub struct RevokeDetail {
    pub target: String,
    pub status: ReceiptStatus,
    pub timestamp: i64,
    pub error: Option<String>,
}

/// A receipt for one push attempt to a target node.
#[derive(Debug, Clone)]
pub struct PushReceipt {
    pub target: String,
    pub status: ReceiptStatus,
    pub local_path: Option<String>,
    pub synced_at: Option<i64>,
    pub error: Option<String>,
    pub retry_count: u32,
}

/// The views of an association list from names to name lists.
pub open spec fn pairs_view(m: Seq<(String, Vec<String>)>) -> Seq<(Seq<char>, Seq<Seq<char>>)> {
    m.map_values(|p: (String, Vec<String>)| (p.0@, p.1@.map_values(|s: String| s@)))
}

/// First-match lookup in an association list, from position `i` on.
pub open spec fn lookup_from(
    m: Seq<(Seq<char>, Seq<Seq<char>>)>,
    key: Seq<char>,
    i: int,
) -> Option<Seq<Seq<char>>>
    decreases m.len() - i,
{
    if i < 0 || i >= m.len() {
        None
    } else if m[i].0 == key {
        Some(m[i].1)
    } else {
        lookup_from(m, key, i + 1)
    }
}

/// First-match lookup in an association list.
pub open spec fn spec_lookup(m: Seq<(Seq<char>, Seq<Seq<char>>)>, key: Seq<char>) -> Option<
    Seq<Seq<char>>,
> {
    lookup_from(m, key, 0)
}

/// First-match lookup over the stored pairs.
fn lookup<'a>(m: &'a Vec<(String, Vec<String>)>, key: &str) -> (r: Option<&'a Vec<String>>)
    ensures
        match r {
            Some(v) => spec_lookup(pairs_view(m@), key@) == Some(
                v@.map_values(|s: String| s@),
            ),
            None => spec_lookup(pairs_view(m@), key@) is None,
        },
{
    let ghost mv = pairs_view(m@);
    let mut i: usize = 0;
    while i < m.len()
        invariant
            0 <= i <= m@.len(),
            mv == pairs_view(m@),
            lookup_from(mv, key@, 0) == lookup_from(mv, key@, i as int),
        decreases m@.len() - i,
    {
        proof {
            assert(mv[i as int] == (m@[i as int].0@, m@[i as int].1@.map_values(
                |s: String| s@,
            )));
        }
        if str_eq(m[i].0.as_str(), key) {
            return Some(&m[i].1);
        }
        i += 1;
    }
    None
}

/// Whether one of the stored names reads as `t`.
fn vec_contains_str(v: &Vec<String>, t: &str) -> (r: bool)
    ensures
        r == v@.map_values(|s: String| s@).contains(t@),
{
    let ghost vv = v@.map_values(|s: String| s@);
    let mut i: usize = 0;
    while i < v.len()
        invariant
            0 <= i <= v@.len(),
            vv == v@.map_values(|s: String| s@),
            forall|j: int| 0 <= j < i ==> vv[j] != t@,
        decreases v@.len() - i,
    {
        if str_eq(v[i].as_str(), t) {
            proof {
                assert(vv[i as int] == t@);
            }
            return true;
        }
        i += 1;
    }
    proof {
        assert(!vv.contains(t@)) by {
            if vv.contains(t@) {
                let j = choose|j: int| 0 <= j < vv.len() && vv[j] == t@;
            }
        }
    }
    false
}

/// Extend an accumulated name list with a name, unless it is already
/// there.
pub open spec fn add_unique(acc: Seq<Seq<char>>, t: Seq<char>) -> Seq<Seq<char>> {
    if acc.contains(t) {
        acc
    } else {
        acc.push(t)
    }
}

/// Extend an accumulated name list with the names of `ts` from position
/// `j` on, without duplicates.
pub open spec fn add_targets(acc: Seq<Seq<char>>, ts: Seq<Seq<char>>, j: int) -> Seq<Seq<char>>
    decreases ts.len() - j,
{
    if j < 0 || j >= ts.len() {
        acc
    } else {
        add_targets(add_unique(acc, ts[j]), ts, j + 1)
    }
}

/// Union of the target lists of the domains `ds[k..]`, gathered without
/// duplicates onto `acc`.
pub open spec fn collect_targets(
    acc: Seq<Seq<char>>,
    domains: Seq<(Seq<char>, Seq<Seq<char>>)>,
    ds: Seq<Seq<char>>,
    k: int,
) -> Seq<Seq<char>>
    decreases ds.len() - k,
{
    if k < 0 || k >= ds.len() {
        acc
    } else {
        let acc2 = match spec_lookup(domains, ds[k]) {
            Some(ts) => add_targets(acc, ts, 0),
            None => acc,
        };
        collect_targets(acc2, domains, ds, k + 1)
    }
}

/// No name occurs twice.
pub open spec fn no_dup(acc: Seq<Seq<char>>) -> bool {
    forall|a: int, b: int| 0 <= a < b < acc.len() ==> acc[a] != acc[b]
}

proof fn lemma_add_unique(acc: Seq<Seq<char>>, t: Seq<char>)
    ensures
        no_dup(acc) ==> no_dup(add_unique(acc, t)),
        forall|x: Seq<char>| add_unique(acc, t).contains(x) <==> (acc.contains(x) || x == t),
{
    let out = add_unique(acc, t);
    if no_dup(acc) && !acc.contains(t) {
        assert forall|a: int, b: int| 0 <= a < b < out.len() implies out[a] != out[b] by {
            if b == out.len() - 1 {
                assert(out[a] == acc[a]);
                assert(acc.contains(acc[a]));
            }
        }
    }
    assert forall|x: Seq<char>| out.contains(x) implies (acc.contains(x) || x == t) by {
        let j = choose|j: int| 0 <= j < out.len() && out[j] == x;
        if !acc.contains(t) && j == out.len() - 1 && out.len() == acc.len() + 1 {
        } else if j < acc.len() {
            assert(acc[j] == x);
        }
    }
    assert forall|x: Seq<char>| (acc.contains(x) || x == t) implies out.contains(x) by {
        if acc.contains(x) {
            let j = choose|j: int| 0 <= j < acc.len() && acc[j] == x;
            assert(out[j] == x);
        } else {
            assert(out[out.len() - 1] == t);
        }
    }
}

proof fn lemma_add_targets(acc: Seq<Seq<char>>, ts: Seq<Seq<char>>, j: int)
    requires
        0 <= j,
    ensures
        no_dup(acc) ==> no_dup(add_targets(acc, ts, j)),
        forall|x: Seq<char>| add_targets(acc, ts, j).contains(x) <==> (acc.contains(x) || exists|
            l: int,
        | j <= l < ts.len() && 0 <= l && #[trigger] ts[l] == x),
    decreases ts.len() - j,
{
    if j < 0 || j >= ts.len() {
    } else {
        lemma_add_unique(acc, ts[j]);
        lemma_add_targets(add_unique(acc, ts[j]), ts, j + 1);
        let out = add_targets(acc, ts, j);
        assert forall|x: Seq<char>| out.contains(x) implies (acc.contains(x) || exists|l: int|
            j <= l < ts.len() && 0 <= l && #[trigger] ts[l] == x) by {
            if !acc.contains(x) {
                if x == ts[j] {
                    assert(j <= j < ts.len() && ts[j] == x);
                } else {
                    let l = choose|l: int| j + 1 <= l < ts.len() && 0 <= l && ts[l] == x;
                }
            }
        }
        assert forall|x: Seq<char>| (acc.contains(x) || exists|l: int|
            j <= l < ts.len() && 0 <= l && #[trigger] ts[l] == x) implies out.contains(x) by {
            if acc.contains(x) || x == ts[j] {
                assert(add_unique(acc, ts[j]).contains(x));
            } else {
                let l = choose|l: int| j <= l < ts.len() && 0 <= l && ts[l] == x;
                assert(j + 1 <= l);
            }
        }
    }
}

proof fn lemma_collect_targets(
    acc: Seq<Seq<char>>,
    domains: Seq<(Seq<char>, Seq<Seq<char>>)>,
    ds: Seq<Seq<char>>,
    k: int,
)
    requires
        0 <= k,
    ensures
        no_dup(acc) ==> no_dup(collect_targets(acc, domains, ds, k)),
        forall|x: Seq<char>| collect_targets(acc, domains, ds, k).contains(x) <==> (acc.contains(
            x,
        ) || exists|m: int|
            {
                &&& k <= m < ds.len()
                &&& 0 <= m
                &&& match spec_lookup(domains, #[trigger] ds[m]) {
                    Some(ts) => ts.contains(x),
                    None => false,
                }
            }),
    decreases ds.len() - k,
{
    if k < 0 || k >= ds.len() {
    } else {
        let acc2 = match spec_lookup(domains, ds[k]) {
            Some(ts) => add_targets(acc, ts, 0),
            None => acc,
        };
        match spec_lookup(domains, ds[k]) {
            Some(ts) => {
                lemma_add_targets(acc, ts, 0);
            },
            None => {},
        }
        lemma_collect_targets(acc2, domains, ds, k + 1);
        let out = collect_targets(acc, domains, ds, k);
        assert forall|x: Seq<char>| out.contains(x) implies (acc.contains(x) || exists|m: int|
            {
                &&& k <= m < ds.len()
                &&& 0 <= m
                &&& match spec_lookup(domains, #[trigger] ds[m]) {
                    Some(ts) => ts.contains(x),
                    None => false,
                }
            }) by {
            if !acc.contains(x) {
                if acc2.contains(x) {
                    assert(k <= k < ds.len() && (match spec_lookup(domains, ds[k]) {
                        Some(ts) => ts.contains(x),
                        None => false,
                    }));
                } else {
                    let m = choose|m: int|
                        {
                            &&& k + 1 <= m < ds.len()
                            &&& 0 <= m
                            &&& match spec_lookup(domains, #[trigger] ds[m]) {
                                Some(ts) => ts.contains(x),
                                None => false,
                            }
                        };
                }
            }
        }
        assert forall|x: Seq<char>| (acc.contains(x) || exists|m: int|
            {
                &&& k <= m < ds.len()
                &&& 0 <= m
                &&& match spec_lookup(domains, #[trigger] ds[m]) {
                    Some(ts) => ts.contains(x),
                    None => false,
                }
            }) implies out.contains(x) by {
            if acc.contains(x) {
                assert(acc2.contains(x));
            } else {
                let m = choose|m: int|
                    {
                        &&& k <= m < ds.len()
                        &&& 0 <= m
                        &&& match spec_lookup(domains, #[trigger] ds[m]) {
                            Some(ts) => ts.contains(x),
                            None => false,
                        }
                    };
                if m == k {
                    assert(acc2.contains(x));
                } else {
                    assert(k + 1 <= m);
                }
            }
        }
    }
}

/// The whitelist gating memory pushes: which target nodes each domain
/// may receive, and which domains each namespace is bound to.
#[derive(Debug, Clone)]
pub struct TargetWhitelist {
    /// Domain name to its allowed target nodes.
    pub domains: Vec<(String, Vec<String>)>,
    /// Namespace to the domains it is bound to.
    pub memory_boundaries: Vec<(String, Vec<String>)>,
}

impl TargetWhitelist {
    /// A target is allowed for a namespace when the namespace is bound
    /// to a domain that lists the target.  A namespace bound to nothing
    /// allows nothing.
    pub open spec fn spec_is_allowed(self, namespace: Seq<char>, target: Seq<char>) -> bool {
        match spec_lookup(pairs_view(self.memory_boundaries@), namespace) {
            None => false,
            Some(ds) => exists|k: int|
                {
                    &&& 0 <= k < ds.len()
                    &&& match spec_lookup(pairs_view(self.domains@), #[trigger] ds[k]) {
                        Some(ts) => ts.contains(target),
                        None => false,
                    }
                },
        }
    }

    /// Whether the target is in the whitelist for the namespace.
    pub fn is_allowed(&self, namespace: &str, target: &str) -> (r: bool)
        ensures
            r == self.spec_is_allowed(namespace@, target@),
    {
        let ghost dv = pairs_view(self.domains@);
        match lookup(&self.memory_boundaries, namespace) {
            Some(ds) => {
                let ghost dsv = ds@.map_values(|s: String| s@);
                let mut k: usize = 0;
                while k < ds.len()
                    invariant
                        0 <= k <= ds@.len(),
                        dv == pairs_view(self.domains@),
                        dsv == ds@.map_values(|s: String| s@),
                        spec_lookup(pairs_view(self.memory_boundaries@), namespace@) == Some(
                            dsv,
                        ),
                        forall|j: int| 0 <= j < k ==> !(match spec_lookup(
                            dv,
                            #[trigger] dsv[j],
                        ) {
                            Some(ts) => ts.contains(target@),
                            None => false,
                        }),
                    decreases ds@.len() - k,
                {
                    match lookup(&self.domains, ds[k].as_str()) {
                        Some(ts) => {
                            if vec_contains_str(ts, target) {
                                proof {
                                    assert(dsv[k as int] == ds@[k as int]@);
                                    assert(match spec_lookup(dv, dsv[k as int]) {
                                        Some(ts2) => ts2.contains(target@),
                                        None => false,
                                    });
                                    assert(spec_lookup(
                                        pairs_view(self.memory_boundaries@),
                                        namespace@,
                                    ) == Some(dsv));
                                    assert(exists|k2: int|
                                        {
                                            &&& 0 <= k2 < dsv.len()
                                            &&& match spec_lookup(dv, #[trigger] dsv[k2]) {
                                                Some(ts2) => ts2.contains(target@),
                                                None => false,
                                            }
                                        });
                                    assert(self.spec_is_allowed(namespace@, target@));
                                }
                                return true;
                            }
                        },
                        None => {},
                    }
                    proof {
                        assert(dsv[k as int] == ds@[k as int]@);
                    }
                    k += 1;
                }
                proof {
                    if self.spec_is_allowed(namespace@, target@) {
                        let j = choose|j: int|
                            {
                                &&& 0 <= j < dsv.len()
                                &&& match spec_lookup(dv, #[trigger] dsv[j]) {
                                    Some(ts) => ts.contains(target@),
                                    None => false,
                                }
                            };
                    }
                }
                false
            },
            None => false,
        }
    }

    /// The targets a namespace may push to, gathered over its bound
    /// domains.
    pub open spec fn spec_allowed_targets(self, namespace: Seq<char>) -> Seq<Seq<char>> {
        match spec_lookup(pairs_view(self.memory_boundaries@), namespace) {
            None => Seq::empty(),
            Some(ds) => collect_targets(
                Seq::empty(),
                pairs_view(self.domains@),
                ds,
                0,
            ),
        }
    }

    /// Every target the namespace may push to, each once: exactly the
    /// names allowed by [`Self::is_allowed`].
    pub fn allowed_targets(&self, namespace: &str) -> (r: Vec<String>)
        ensures
            r@.map_values(|s: String| s@) == self.spec_allowed_targets(namespace@),
            no_dup(r@.map_values(|s: String| s@)),
            forall|x: Seq<char>| r@.map_values(|s: String| s@).contains(x)
                <==> self.spec_is_allowed(namespace@, x),
    {
        let ghost dv = pairs_view(self.domains@);
        let mut out: Vec<String> = Vec::new();
        match lookup(&self.memory_boundaries, namespace) {
            Some(ds) => {
                let ghost dsv = ds@.map_values(|s: String| s@);
                let ghost goal = collect_targets(Seq::empty(), dv, dsv, 0);
                proof {
                    assert(out@.map_values(|s: String| s@) =~= Seq::<Seq<char>>::empty());
                }
                let mut k: usize = 0;
                while k < ds.len()
                    invariant
                        0 <= k <= ds@.len(),
                        dv == pairs_view(self.domains@),
                        dsv == ds@.map_values(|s: String| s@),
                        spec_lookup(pairs_view(self.memory_boundaries@), namespace@) == Some(
                            dsv,
                        ),
                        goal == collect_targets(Seq::empty(), dv, dsv, 0),
                        collect_targets(
                            out@.map_values(|s: String| s@),
                            dv,
                            dsv,
                            k as int,
                        ) == goal,
                    decreases ds@.len() - k,
                {
                    proof {
                        assert(dsv[k as int] == ds@[k as int]@);
                    }
                    match lookup(&self.domains, ds[k].as_str()) {
                        Some(ts) => {
                            let ghost tsv = ts@.map_values(|s: String| s@);
                            let ghost entry_acc = out@.map_values(|s: String| s@);
                            let mut j: usize = 0;
                            while j < ts.len()
                                invariant
                                    0 <= j <= ts@.len(),
                                    tsv == ts@.map_values(|s: String| s@),
                                    add_targets(
                                        out@.map_values(|s: String| s@),
                                        tsv,
                                        j as int,
                                    ) == add_targets(entry_acc, tsv, 0),
                                decreases ts@.len() - j,
                            {
                                proof {
                                    assert(tsv[j as int] == ts@[j as int]@);
                                }
                                let ghost prev = out@.map_values(|s: String| s@);
                                if !vec_contains_str(&out, ts[j].as_str()) {
                                    out.push(ts[j].clone());
                                    proof {
                                        assert(out@.map_values(|s: String| s@) =~= prev.push(
                                            tsv[j as int],
                                        ));
                                        assert(add_unique(prev, tsv[j as int]) == prev.push(
                                            tsv[j as int],
                                        ));
                                    }
                                } else {
                                    proof {
                                        assert(add_unique(prev, tsv[j as int]) == prev);
                                    }
                                }
                                j += 1;
                            }
                            proof {
                                assert(out@.map_values(|s: String| s@) == add_targets(
                                    entry_acc,
                                    tsv,
                                    0,
                                ));
                                assert(dsv[k as int] == ds@[k as int]@);
                                assert(collect_targets(entry_acc, dv, dsv, k as int)
                                    == collect_targets(
                                    out@.map_values(|s: String| s@),
                                    dv,
                                    dsv,
                                    k + 1,
                                ));
                            }
                        },
                        None => {
                            proof {
                                assert(dsv[k as int] == ds@[k as int]@);
                                assert(collect_targets(
                                    out@.map_values(|s: String| s@),
                                    dv,
                                    dsv,
                                    k as int,
                                ) == collect_targets(
                                    out@.map_values(|s: String| s@),
                                    dv,
                                    dsv,
                                    k + 1,
                                ));
                            }
                        },
                    }
                    k += 1;
                }
                proof {
                    lemma_collect_targets(Seq::empty(), dv, dsv, 0);
                    assert forall|x: Seq<char>|
                        out@.map_values(|s: String| s@).contains(x) <==> self.spec_is_allowed(
                            namespace@,
                            x,
                        ) by {
                        assert(!Seq::<Seq<char>>::empty().contains(x));
                    }
                }
            },
            None => {
                proof {
                    assert(out@.map_values(|s: String| s@) =~= Seq::<Seq<char>>::empty());
                    assert forall|x: Seq<char>|
                        out@.map_values(|s: String| s@).contains(x) <==> self.spec_is_allowed(
                            namespace@,
                            x,
                        ) by {
                        assert(!Seq::<Seq<char>>::empty().contains(x));
                    }
                }
            },
        }
        out
    }
}

impl Default for TargetWhitelist {
    fn default() -> (w: Self)
        ensures
            w.domains@.len() == 0,
            w.memory_boundaries@.len() == 0,
    {
        TargetWhitelist { domains: Vec::new(), memory_boundaries: Vec::new() }
    }
}

/// Settings of the push system.
#[derive(Debug, Clone)]
pub struct PushConfig {
    pub private_namespaces: Vec<String>,
    pub public_namespaces: Vec<String>,
    pub target_whitelist: TargetWhitelist,
    pub require_encryption: bool,
    /// Push timeout, in seconds.
    pub push_timeout: u64,
    pub max_retries: u32,
}

impl Default for PushConfig {
    fn default() -> (c: Self)
        ensures
            c.private_namespaces@.len() == 3,
            c.private_namespaces@[0]@ == "diary/*"@,
            c.private_namespaces@[1]@ == "personal/*"@,
            c.private_namespaces@[2]@ == "keys/*"@,
            c.public_namespaces@.len() == 3,
            c.public_namespaces@[0]@ == "work/*"@,
            c.public_namespaces@[1]@ == "blog-drafts/*"@,
            c.public_namespaces@[2]@ == "open-source/*"@,
            c.require_encryption,
            c.push_timeout == 30,
            c.max_retries == 3,
    {
        let mut private_namespaces: Vec<String> = Vec::new();
        private_namespaces.push(String::from_str("diary/*"));
        private_namespaces.push(String::from_str("personal/*"));
        private_namespaces.push(String::from_str("keys/*"));
        let mut public_namespaces: Vec<String> = Vec::new();
        public_namespaces.push(String::from_str("work/*"));
        public_namespaces.push(String::from_str("blog-drafts/*"));
        public_namespaces.push(String::from_str("open-source/*"));
        PushConfig {
            private_namespaces,
            public_namespaces,
            target_whitelist: TargetWhitelist::default(),
            require_encryption: true,
            push_timeout: 30,
            max_retries: 3,
        }
    }
}

} // verus!
