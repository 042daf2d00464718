//! The task server: the life of a task, the limits on running tasks, and the answers to
//! requests.
use vstd::prelude::*;

use crate::metadata::clone_text;
use crate::order;
use crate::paths;
use crate::text;

verus! {

// ---------------------------------------------------------------------------
// Tasks
// ---------------------------------------------------------------------------

#[derive(Debug, Clone, Copy, PartialEq, Eq, Structural)]
pub enum TaskKind {
    Scan,
    Backup,
    Restore,
}

#[derive(Debug, Clone, Copy, PartialEq, Eq, Structural)]
pub enum TaskState {
    Created,
    Starting,
    Running,
    Stopping,
    Stopped,
    Completed,
    Failed,
    Killed,
}

/// Whether a task in this state still takes up room.
pub open spec fn is_active(state: TaskState) -> bool {
    state == TaskState::Created || state == TaskState::Starting || state == TaskState::Running
        || state == TaskState::Stopping
}

pub fn is_active_state(state: TaskState) -> (r: bool)
    ensures
        r == is_active(state),
{
    match state {
        TaskState::Created | TaskState::Starting | TaskState::Running | TaskState::Stopping => true,
        TaskState::Stopped | TaskState::Completed | TaskState::Failed | TaskState::Killed => false,
    }
}

/// What a task has done.
#[derive(Debug, Clone, Copy, PartialEq, Eq, Structural)]
pub enum TaskStats {
    Nothing,
    Scan {
        total_files: u64,
        total_dirs: u64,
        total_size_bytes: u64,
        failed_files: u64,
        failed_dirs: u64,
    },
    Transfer {
        files: u64,
        dirs: u64,
        bytes: u64,
        files_failed: u64,
        dirs_failed: u64,
        subtasks_ok: usize,
        subtasks_failed: usize,
    },
}

/// What is known of a task. Times are texts that sort by time.
#[derive(Debug)]
pub struct TaskStatus {
    pub uuid: String,
    pub kind: TaskKind,
    pub state: TaskState,
    pub pid: Option<u32>,
    pub created_at: String,
    pub started_at: Option<String>,
    pub finished_at: Option<String>,
    pub message: Option<String>,
    pub exit_code: Option<i32>,
    pub stats: TaskStats,
}

impl Clone for TaskStatus {
    fn clone(&self) -> (r: Self)
        ensures
            r == *self,
    {
        TaskStatus {
            uuid: self.uuid.clone(),
            kind: self.kind,
            state: self.state,
            pid: self.pid,
            created_at: self.created_at.clone(),
            started_at: clone_text(&self.started_at),
            finished_at: clone_text(&self.finished_at),
            message: clone_text(&self.message),
            exit_code: self.exit_code,
            stats: self.stats,
        }
    }
}

/// Whether an optional text is the given one.
pub open spec fn says(text: Option<String>, words: Seq<char>) -> bool {
    text matches Some(t) && t@ == words
}

// ---------------------------------------------------------------------------
// The life of a task
// ---------------------------------------------------------------------------

/// Whether a task was just created: nothing has happened to it.
pub open spec fn is_new(t: TaskStatus, kind: TaskKind) -> bool {
    &&& t.kind == kind
    &&& t.state == TaskState::Created
    &&& t.pid is None
    &&& t.started_at is None
    &&& t.finished_at is None
    &&& says(t.message, "task created"@)
    &&& t.exit_code is None
    &&& t.stats == TaskStats::Nothing
}

/// A task that was just created.
pub fn task_created(uuid: String, kind: TaskKind, now: String) -> (r: TaskStatus)
    ensures
        is_new(r, kind),
        r.uuid == uuid,
        r.created_at == now,
{
    TaskStatus {
        uuid,
        kind,
        state: TaskState::Created,
        pid: None,
        created_at: now,
        started_at: None,
        finished_at: None,
        message: Some(text::copy_of("task created")),
        exit_code: None,
        stats: TaskStats::Nothing,
    }
}

/// The task once its worker process was started.
pub fn worker_spawned(status: TaskStatus, pid: Option<u32>, now: String) -> (r: TaskStatus)
    ensures
        r == (TaskStatus {
            pid,
            state: TaskState::Starting,
            started_at: Some(now),
            message: r.message,
            ..status
        }),
        says(r.message, "worker spawned"@),
{
    let mut r = status;
    r.pid = pid;
    r.state = TaskState::Starting;
    r.started_at = Some(now);
    r.message = Some(text::copy_of("worker spawned"));
    r
}

/// The task as its worker sees it at first.
pub fn worker_starting(uuid: String, kind: TaskKind, pid: u32, now: String) -> (r: TaskStatus)
    ensures
        r.uuid == uuid,
        r.kind == kind,
        r.state == TaskState::Starting,
        r.pid == Some(pid),
        r.created_at == now,
        r.started_at == Some(now),
        r.finished_at is None,
        says(r.message, "worker starting"@),
        r.exit_code is None,
        r.stats == TaskStats::Nothing,
{
    TaskStatus {
        uuid,
        kind,
        state: TaskState::Starting,
        pid: Some(pid),
        created_at: now.clone(),
        started_at: Some(now),
        finished_at: None,
        message: Some(text::copy_of("worker starting")),
        exit_code: None,
        stats: TaskStats::Nothing,
    }
}

/// The task while its worker is at work.
pub fn worker_running(status: TaskStatus) -> (r: TaskStatus)
    ensures
        r == (TaskStatus { state: TaskState::Running, message: r.message, ..status }),
        says(r.message, "task running"@),
{
    let mut r = status;
    r.state = TaskState::Running;
    r.message = Some(text::copy_of("task running"));
    r
}

/// The task once its worker is done, with what it did or with the text of its error.
pub fn run_worker(status: TaskStatus, result: Result<TaskStats, String>, now: String) -> (r:
    TaskStatus)
    ensures
        has_run(status, result, now, r),
{
    let mut r = status;
    r.finished_at = Some(now);
    match result {
        Ok(stats) => {
            r.state = TaskState::Completed;
            r.message = Some(text::copy_of("task completed"));
            r.stats = stats;
            r.exit_code = Some(0);
        },
        Err(e) => {
            r.state = TaskState::Failed;
            r.message = Some(e);
            r.exit_code = Some(1);
        },
    }
    r
}

/// The signal that ends a process at once (Linux).
pub const SIGKILL: i32 = 9;

/// The signal that asks a process to end (Linux).
pub const SIGTERM: i32 = 15;

/// How a worker process ended.
#[derive(Debug)]
pub enum WorkerExit {
    Exited { code: Option<i32>, signal: Option<i32>, success: bool, status: String },
    /// It could not be waited for.
    WaitFailed(String),
}

/// Whether `after` is the task once the end of its worker was seen.
pub open spec fn reconciled(
    before: TaskStatus,
    exit: WorkerExit,
    now: String,
    after: TaskStatus,
) -> bool {
    if !is_active(before.state) {
        after == before
    } else {
        match exit {
            WorkerExit::Exited { code, signal, success, status } => {
                &&& after == (TaskStatus {
                    finished_at: Some(now),
                    exit_code: code,
                    state: match signal {
                        Some(s) => if s == SIGKILL {
                            TaskState::Killed
                        } else {
                            TaskState::Stopped
                        },
                        None => if success {
                            TaskState::Completed
                        } else {
                            TaskState::Failed
                        },
                    },
                    message: after.message,
                    ..before
                })
                &&& says(
                    after.message,
                    match signal {
                        Some(s) => "worker exited by signal "@ + text::signed_decimal(s as int),
                        None => if success {
                            "worker exited successfully"@
                        } else {
                            "worker exited with status "@ + status@
                        },
                    },
                )
            },
            WorkerExit::WaitFailed(e) => {
                &&& after == (TaskStatus {
                    finished_at: Some(now),
                    state: TaskState::Failed,
                    message: after.message,
                    ..before
                })
                &&& says(after.message, "failed waiting for worker: "@ + e@)
            },
        }
    }
}

/// Takes note of the end of a worker process. What the worker itself wrote down last is
/// looked at first; a task that is over by then is left alone. Says whether the task has
/// changed and is to be written down.
pub fn reconcile_task_exit(
    current: TaskStatus,
    latest: Option<TaskStatus>,
    exit: WorkerExit,
    now: String,
) -> (r: (TaskStatus, bool))
    ensures
        ({
            let before = match latest {
                Some(l) => l,
                None => current,
            };
            &&& reconciled(before, exit, now, r.0)
            &&& r.1 == is_active(before.state)
        }),
{
    let mut status = match latest {
        Some(l) => l,
        None => current,
    };
    if !is_active_state(status.state) {
        return (status, false);
    }
    status.finished_at = Some(now);
    match exit {
        WorkerExit::Exited { code, signal, success, status: words } => {
            status.exit_code = code;
            match signal {
                Some(s) => {
                    status.state =
                    if s == SIGKILL {
                        TaskState::Killed
                    } else {
                        TaskState::Stopped
                    };
                    status.message =
                    Some(
                        text::concat(
                            "worker exited by signal ",
                            text::signed_decimal_string(s).as_str(),
                        ),
                    );
                },
                None => {
                    if success {
                        status.state = TaskState::Completed;
                        status.message = Some(text::copy_of("worker exited successfully"));
                    } else {
                        status.state = TaskState::Failed;
                        status.message =
                        Some(text::concat("worker exited with status ", words.as_str()));
                    }
                },
            }
        },
        WorkerExit::WaitFailed(e) => {
            status.state = TaskState::Failed;
            status.message = Some(text::concat("failed waiting for worker: ", e.as_str()));
        },
    }
    (status, true)
}

/// Once the end of its worker was seen, a task is over; and seeing another end later
/// changes nothing.
pub proof fn law_task_ends_once(
    before: TaskStatus,
    first: WorkerExit,
    first_time: String,
    after: TaskStatus,
    second: WorkerExit,
    second_time: String,
    later: TaskStatus,
)
    requires
        reconciled(before, first, first_time, after),
        reconciled(after, second, second_time, later),
    ensures
        !is_active(after.state),
        later == after,
        after.uuid == before.uuid && after.kind == before.kind && after.created_at
            == before.created_at,
{
}

// ---------------------------------------------------------------------------
// Errors of requests
// ---------------------------------------------------------------------------

/// An error as it is sent to a client.
#[derive(Debug)]
pub struct RpcError {
    pub code: i64,
    pub message: String,
}

pub fn io_to_rpc(message: String) -> (r: RpcError)
    ensures
        r.code == -32000,
        r.message == message,
{
    RpcError { code: -32000, message }
}

pub fn json_to_rpc(message: String) -> (r: RpcError)
    ensures
        r.code == -32603,
        r.message == message,
{
    RpcError { code: -32603, message }
}

/// The error about parameters that could not be read.
pub fn invalid_params(detail: &str) -> (r: RpcError)
    ensures
        r.code == -32602,
        r.message@ == "invalid params: "@ + detail@,
{
    RpcError { code: -32602, message: text::concat("invalid params: ", detail) }
}

/// The error of a task that was refused.
pub fn limit_to_rpc(message: String) -> (r: RpcError)
    ensures
        r.code == -32001,
        r.message == message,
{
    RpcError { code: -32001, message }
}

// ---------------------------------------------------------------------------
// Requests
// ---------------------------------------------------------------------------

#[derive(Debug, Clone, Copy, PartialEq, Eq, Structural)]
pub enum RpcMethod {
    CreateScan,
    CreateBackup,
    CreateRestore,
    Stop,
    Kill,
    Get,
    List,
}

/// The method of the given name.
pub open spec fn method_named(name: Seq<char>) -> Option<RpcMethod> {
    if name == "task.create_scan"@ {
        Some(RpcMethod::CreateScan)
    } else if name == "task.create_backup"@ {
        Some(RpcMethod::CreateBackup)
    } else if name == "task.create_restore"@ {
        Some(RpcMethod::CreateRestore)
    } else if name == "task.stop"@ {
        Some(RpcMethod::Stop)
    } else if name == "task.kill"@ {
        Some(RpcMethod::Kill)
    } else if name == "task.get"@ {
        Some(RpcMethod::Get)
    } else if name == "task.list"@ || name == "task.all"@ {
        Some(RpcMethod::List)
    } else {
        None
    }
}

/// The method that a request names, or the error about an unknown one.
pub fn dispatch_rpc(method: &str) -> (r: Result<RpcMethod, RpcError>)
    ensures
        match r {
            Ok(m) => method_named(method@) == Some(m),
            Err(e) => method_named(method@) is None && e.code == -32601 && e.message@
                == "unknown method: "@ + method@,
        },
{
    if text::same(method, "task.create_scan") {
        Ok(RpcMethod::CreateScan)
    } else if text::same(method, "task.create_backup") {
        Ok(RpcMethod::CreateBackup)
    } else if text::same(method, "task.create_restore") {
        Ok(RpcMethod::CreateRestore)
    } else if text::same(method, "task.stop") {
        Ok(RpcMethod::Stop)
    } else if text::same(method, "task.kill") {
        Ok(RpcMethod::Kill)
    } else if text::same(method, "task.get") {
        Ok(RpcMethod::Get)
    } else if text::same(method, "task.list") || text::same(method, "task.all") {
        Ok(RpcMethod::List)
    } else {
        Err(RpcError { code: -32601, message: text::concat("unknown method: ", method) })
    }
}

/// The answer to a request that created a task.
#[derive(Debug)]
pub struct CreateTaskResponse {
    pub uuid: String,
    pub pid: Option<u32>,
    pub kind: TaskKind,
    pub state: TaskState,
    pub status_url: String,
    pub logs_url: String,
}

pub fn create_task_response(status: &TaskStatus) -> (r: CreateTaskResponse)
    ensures
        r.uuid == status.uuid,
        r.pid == status.pid,
        r.kind == status.kind,
        r.state == status.state,
        r.status_url@ == "/tasks/"@ + status.uuid@ + "/status"@,
        r.logs_url@ == "/tasks/"@ + status.uuid@ + "/logs"@,
{
    let base = text::concat("/tasks/", status.uuid.as_str());
    CreateTaskResponse {
        uuid: status.uuid.clone(),
        pid: status.pid,
        kind: status.kind,
        state: status.state,
        status_url: text::concat(base.as_str(), "/status"),
        logs_url: text::concat(base.as_str(), "/logs"),
    }
}

/// The files of a task below the directory of the server.
#[derive(Debug)]
pub struct TaskFiles {
    pub dir: String,
    pub request_file: String,
    pub status_file: String,
    pub log_file: String,
}

pub fn task_files(runtime_dir: &str, task_id: &str) -> (r: TaskFiles)
    ensures
        r.dir@ == paths::join(runtime_dir@, task_id@),
        r.request_file@ == paths::join(r.dir@, "request.json"@),
        r.status_file@ == paths::join(r.dir@, "status.json"@),
        r.log_file@ == paths::join(r.dir@, "worker.log"@),
{
    let dir = paths::join_path(runtime_dir, task_id);
    let request_file = paths::join_path(dir.as_str(), "request.json");
    let status_file = paths::join_path(dir.as_str(), "status.json");
    let log_file = paths::join_path(dir.as_str(), "worker.log");
    TaskFiles { dir, request_file, status_file, log_file }
}

// ---------------------------------------------------------------------------
// Limits
// ---------------------------------------------------------------------------

#[derive(Debug)]
pub struct ServerConfig {
    pub runtime_dir: String,
    pub max_scanners_count: usize,
    pub max_subtasks_count: usize,
}

impl ServerConfig {
    /// A configuration that lets at least one task of each kind run.
    pub fn new(runtime_dir: String, max_scanners_count: usize, max_subtasks_count: usize) -> (r: Self)
        ensures
            r.runtime_dir == runtime_dir,
            r.max_scanners_count == (if max_scanners_count == 0 {
                1
            } else {
                max_scanners_count
            }),
            r.max_subtasks_count == (if max_subtasks_count == 0 {
                1
            } else {
                max_subtasks_count
            }),
    {
        ServerConfig {
            runtime_dir,
            max_scanners_count: if max_scanners_count == 0 {
                1
            } else {
                max_scanners_count
            },
            max_subtasks_count: if max_subtasks_count == 0 {
                1
            } else {
                max_subtasks_count
            },
        }
    }
}

/// Whether a task counts against the same limit as a scan, if `scans`, or as a backup or
/// a restore otherwise.
pub open spec fn takes_room(t: TaskStatus, scans: bool) -> bool {
    (t.kind == TaskKind::Scan) == scans && is_active(t.state)
}

/// How many tasks count against a limit.
pub open spec fn room_taken(tasks: Seq<TaskStatus>, scans: bool) -> nat
    decreases tasks.len(),
{
    if tasks.len() == 0 {
        0
    } else {
        room_taken(tasks.drop_last(), scans) + (if takes_room(tasks.last(), scans) {
            1nat
        } else {
            0nat
        })
    }
}

fn count_active(tasks: &Vec<TaskStatus>, scans: bool) -> (n: usize)
    ensures
        n == room_taken(tasks@, scans),
        n <= tasks@.len(),
{
    let mut n: usize = 0;
    let mut i: usize = 0;
    assert(tasks@.take(0) =~= Seq::empty());
    while i < tasks.len()
        invariant
            i <= tasks@.len(),
            n == room_taken(tasks@.take(i as int), scans),
            n <= i,
        decreases tasks@.len() - i,
    {
        assert(tasks@.take(i + 1).drop_last() =~= tasks@.take(i as int));
        assert(tasks@.take(i + 1).last() == tasks@[i as int]);
        if (tasks[i].kind == TaskKind::Scan) == scans && is_active_state(tasks[i].state) {
            n = n + 1;
        }
        i += 1;
    }
    assert(tasks@.take(i as int) =~= tasks@);
    n
}

/// How many tasks of a kind may be active at once.
pub open spec fn most_of(config: ServerConfig, kind: TaskKind) -> nat {
    match kind {
        TaskKind::Scan => config.max_scanners_count as nat,
        TaskKind::Backup | TaskKind::Restore => config.max_subtasks_count as nat,
    }
}

/// The text about a limit that is reached.
pub open spec fn limit_text(what: Seq<char>, running: nat, most: nat) -> Seq<char> {
    what + " limit reached: "@ + text::decimal(running) + "/"@ + text::decimal(most)
}

fn limit_message(what: &str, running: usize, most: usize) -> (s: String)
    ensures
        s@ == limit_text(what@, running as nat, most as nat),
{
    let mut s = text::concat(what, " limit reached: ");
    s.append(text::decimal_string(running as u64).as_str());
    s.append("/");
    s.append(text::decimal_string(most as u64).as_str());
    s
}

/// Whether another task of the given kind may start: as long as fewer tasks of its kind
/// are active than are allowed. Backups and restores are counted together.
pub fn enforce_limits(config: &ServerConfig, tasks: &Vec<TaskStatus>, kind: TaskKind) -> (r: Result<
    (),
    String,
>)
    ensures
        admits(*config, tasks@, kind, r),
{
    match kind {
        TaskKind::Scan => {
            let running: usize = count_active(tasks, true);
            if running >= config.max_scanners_count {
                Err(limit_message("scanner", running, config.max_scanners_count))
            } else {
                Ok(())
            }
        },
        TaskKind::Backup | TaskKind::Restore => {
            let running: usize = count_active(tasks, false);
            if running >= config.max_subtasks_count {
                Err(limit_message("subtask", running, config.max_subtasks_count))
            } else {
                Ok(())
            }
        },
    }
}

/// Trusted: `uuid::Uuid::new_v4`, written by `to_string`. The identifier is random: all
/// that is claimed of it is that its hyphenated form has 36 characters.
#[verifier::external_body]
fn fresh_task_id() -> (r: String)
    ensures
        r@.len() == 36,
{
    uuid::Uuid::new_v4().to_string()
}

/// Trusted: `chrono::DateTime::to_rfc3339` of what `chrono::Utc::now` reads from the clock.
/// Nothing is claimed of the text.
#[verifier::external_body]
fn utc_timestamp() -> (r: String) {
    chrono::Utc::now().to_rfc3339()
}

/// A task that was admitted, with its files.
#[derive(Debug)]
pub struct NewTask {
    pub status: TaskStatus,
    pub files: TaskFiles,
}

/// Admits a task as long as its limit is not reached, and gives it an identifier and its
/// files.
pub fn spawn_task(config: &ServerConfig, tasks: &Vec<TaskStatus>, kind: TaskKind) -> (r: Result<
    NewTask,
    RpcError,
>)
    ensures
        spawns(*config, tasks@, kind, r),
{
    match enforce_limits(config, tasks, kind) {
        Err(e) => Err(limit_to_rpc(e)),
        Ok(_) => {
            let id = fresh_task_id();
            let files = task_files(config.runtime_dir.as_str(), id.as_str());
            Ok(NewTask { status: task_created(id, kind, utc_timestamp()), files })
        },
    }
}

/// A task that was admitted keeps the number of active tasks of its kind within the
/// limit, and does not count against the other one.
pub proof fn law_limits_are_kept(tasks: Seq<TaskStatus>, new: TaskStatus, most: nat)
    requires
        room_taken(tasks, new.kind == TaskKind::Scan) < most,
    ensures
        room_taken(tasks.push(new), new.kind == TaskKind::Scan) <= most,
        room_taken(tasks.push(new), new.kind != TaskKind::Scan) == room_taken(
            tasks,
            new.kind != TaskKind::Scan,
        ),
{
    assert(tasks.push(new).drop_last() =~= tasks);
}

// ---------------------------------------------------------------------------
// The table of tasks
// ---------------------------------------------------------------------------

/// A task of the server under its identifier, with the files that tell of it.
#[derive(Debug)]
pub struct ManagedTask {
    pub id: String,
    pub status: TaskStatus,
    pub status_file: String,
    pub log_file: String,
}

/// All tasks of the server.
#[derive(Debug)]
pub struct TaskTable {
    pub tasks: Vec<ManagedTask>,
}

/// The task with the given identifier.
pub open spec fn task_in(tasks: Seq<ManagedTask>, id: Seq<char>) -> Option<ManagedTask>
    decreases tasks.len(),
{
    if tasks.len() == 0 {
        None
    } else if tasks.last().id@ == id {
        Some(tasks.last())
    } else {
        task_in(tasks.drop_last(), id)
    }
}

proof fn lemma_task_at(tasks: Seq<ManagedTask>, i: int)
    requires
        distinct_ids(tasks),
        0 <= i < tasks.len(),
    ensures
        task_in(tasks, tasks[i].id@) == Some(tasks[i]),
    decreases tasks.len(),
{
    if i < tasks.len() - 1 {
        assert(tasks.last() == tasks[tasks.len() - 1]);
        assert(tasks[i].id@ != tasks[tasks.len() - 1].id@);
        assert(distinct_ids(tasks.drop_last())) by {
            assert forall|a: int, b: int|
                0 <= a < b < tasks.drop_last().len() implies (#[trigger] tasks.drop_last()[a]).id@
                != (#[trigger] tasks.drop_last()[b]).id@ by {
                assert(tasks[a].id@ != tasks[b].id@);
            }
        }
        lemma_task_at(tasks.drop_last(), i);
    }
}

proof fn lemma_no_task(tasks: Seq<ManagedTask>, id: Seq<char>)
    requires
        forall|i: int| 0 <= i < tasks.len() ==> (#[trigger] tasks[i]).id@ != id,
    ensures
        task_in(tasks, id) is None,
    decreases tasks.len(),
{
    if tasks.len() > 0 {
        assert(tasks[tasks.len() - 1].id@ != id);
        assert forall|i: int| 0 <= i < tasks.drop_last().len() implies (
        #[trigger] tasks.drop_last()[i]).id@ != id by {
            assert(tasks[i].id@ != id);
        }
        lemma_no_task(tasks.drop_last(), id);
    }
}

/// Whether no identifier occurs twice.
pub open spec fn distinct_ids(tasks: Seq<ManagedTask>) -> bool {
    forall|i: int, j: int|
        0 <= i < j < tasks.len() ==> (#[trigger] tasks[i]).id@ != (#[trigger] tasks[j]).id@
}

proof fn lemma_update_keeps_others(tasks: Seq<ManagedTask>, at: int, t: ManagedTask, id: Seq<char>)
    requires
        0 <= at < tasks.len(),
        tasks[at].id@ == t.id@,
        id != t.id@,
    ensures
        task_in(tasks.update(at, t), id) == task_in(tasks, id),
    decreases tasks.len(),
{
    if at < tasks.len() - 1 {
        assert(tasks.update(at, t).drop_last() =~= tasks.drop_last().update(at, t));
        lemma_update_keeps_others(tasks.drop_last(), at, t, id);
    } else {
        assert(tasks.update(at, t).drop_last() =~= tasks.drop_last());
    }
}

impl TaskTable {
    pub open spec fn wf(&self) -> bool {
        distinct_ids(self.tasks@)
    }

    /// The task with the given identifier.
    pub open spec fn task(&self, id: Seq<char>) -> Option<ManagedTask> {
        task_in(self.tasks@, id)
    }

    pub fn new() -> (r: Self)
        ensures
            r.wf(),
            r.tasks@.len() == 0,
    {
        TaskTable { tasks: Vec::new() }
    }

    fn position(&self, id: &str) -> (r: Option<usize>)
        requires
            self.wf(),
        ensures
            match r {
                Some(i) => i < self.tasks@.len() && self.tasks@[i as int].id@ == id@
                    && self.task(id@) == Some(self.tasks@[i as int]),
                None => self.task(id@) is None && forall|i: int|
                    0 <= i < self.tasks@.len() ==> (#[trigger] self.tasks@[i]).id@ != id@,
            },
    {
        let mut i: usize = 0;
        while i < self.tasks.len()
            invariant
                i <= self.tasks@.len(),
                self.wf(),
                forall|k: int| 0 <= k < i ==> (#[trigger] self.tasks@[k]).id@ != id@,
            decreases self.tasks@.len() - i,
        {
            if text::same(self.tasks[i].id.as_str(), id) {
                proof {
                    lemma_task_at(self.tasks@, i as int);
                }
                return Some(i);
            }
            i += 1;
        }
        proof {
            lemma_no_task(self.tasks@, id@);
        }
        None
    }

    /// Puts a task into the table, in place of one with the same identifier.
    pub fn insert(&mut self, task: ManagedTask)
        requires
            old(self).wf(),
        ensures
            final(self).wf(),
            final(self).task(task.id@) == Some(task),
            forall|id: Seq<char>|
                id != task.id@ ==> #[trigger] final(self).task(id) == old(self).task(id),
    {
        let ghost before = self.tasks@;
        let ghost given = task;
        match self.position(task.id.as_str()) {
            Some(i) => {
                self.tasks.set(i, task);
                proof {
                    assert(self.tasks@ =~= before.update(i as int, given));
                    assert(distinct_ids(self.tasks@)) by {
                        assert forall|a: int, b: int|
                            0 <= a < b < self.tasks@.len() implies (
                        #[trigger] self.tasks@[a]).id@ != (#[trigger] self.tasks@[b]).id@ by {
                            assert(before[a].id@ != before[b].id@);
                        }
                    }
                    lemma_task_at(self.tasks@, i as int);
                    assert forall|id: Seq<char>| id != given.id@ implies #[trigger] self.task(id)
                        == task_in(before, id) by {
                        lemma_update_keeps_others(before, i as int, given, id);
                    }
                }
            },
            None => {
                self.tasks.push(task);
                proof {
                    assert(self.tasks@.drop_last() =~= before);
                }
            },
        }
    }

    /// Replaces what is known of a task.
    pub fn set_status(&mut self, id: &str, status: TaskStatus) -> (r: Result<(), String>)
        requires
            old(self).wf(),
        ensures
            final(self).wf(),
            match old(self).task(id@) {
                None => r matches Err(e) && e@ == "task not found: "@ + id@ && final(self).tasks
                    == old(self).tasks,
                Some(t) => r is Ok && final(self).task(id@) == Some(ManagedTask { status, ..t }),
            },
            forall|other: Seq<char>|
                other != id@ ==> #[trigger] final(self).task(other) == old(self).task(other),
    {
        match self.position(id) {
            None => Err(text::concat("task not found: ", id)),
            Some(i) => {
                let task = ManagedTask {
                    id: self.tasks[i].id.clone(),
                    status,
                    status_file: self.tasks[i].status_file.clone(),
                    log_file: self.tasks[i].log_file.clone(),
                };
                self.insert(task);
                Ok(())
            },
        }
    }

    /// Takes over what the worker of a task wrote down last, where it wrote anything.
    pub fn refresh(&mut self, id: &str, latest: Option<Result<TaskStatus, String>>) -> (r: Result<
        (),
        String,
    >)
        requires
            old(self).wf(),
        ensures
            final(self).wf(),
            match old(self).task(id@) {
                None => r matches Err(e) && e@ == "task not found: "@ + id@ && final(self).tasks
                    == old(self).tasks,
                Some(t) => match latest {
                    None => r is Ok && final(self).tasks == old(self).tasks,
                    Some(Err(m)) => r == Err::<(), String>(m) && final(self).tasks == old(
                        self,
                    ).tasks,
                    Some(Ok(status)) => r is Ok && final(self).task(id@) == Some(
                        ManagedTask { status, ..t },
                    ),
                },
            },
            forall|other: Seq<char>|
                other != id@ ==> #[trigger] final(self).task(other) == old(self).task(other),
    {
        match self.position(id) {
            None => Err(text::concat("task not found: ", id)),
            Some(_) => match latest {
                None => Ok(()),
                Some(Err(m)) => Err(m),
                Some(Ok(status)) => self.set_status(id, status),
            },
        }
    }

    pub fn get_task_snapshot(&self, id: &str) -> (r: Result<TaskStatus, String>)
        requires
            self.wf(),
        ensures
            match r {
                Ok(s) => self.task(id@) matches Some(t) && t.status == s,
                Err(e) => self.task(id@) is None && e@ == "task not found: "@ + id@,
            },
    {
        match self.position(id) {
            Some(i) => Ok(self.tasks[i].status.clone()),
            None => Err(text::concat("task not found: ", id)),
        }
    }

    /// The log file of a task.
    pub fn get_task_logs(&self, id: &str) -> (r: Result<String, String>)
        requires
            self.wf(),
        ensures
            match r {
                Ok(s) => self.task(id@) matches Some(t) && t.log_file == s,
                Err(e) => self.task(id@) is None && e@ == "task not found: "@ + id@,
            },
    {
        match self.position(id) {
            Some(i) => Ok(self.tasks[i].log_file.clone()),
            None => Err(text::concat("task not found: ", id)),
        }
    }

    /// What is known of each task.
    pub open spec fn statuses(&self) -> Seq<TaskStatus> {
        self.tasks@.map_values(|t: ManagedTask| t.status)
    }

    /// What is known of all tasks, those that were created first in front.
    pub fn list_task_snapshots(&self) -> (out: Vec<TaskStatus>)
        ensures
            oldest_first(out@),
            out@.to_multiset() == self.statuses().to_multiset(),
    {
        let ghost all = self.statuses();
        let mut out: Vec<TaskStatus> = Vec::new();
        let mut i: usize = 0;
        assert(out@ =~= all.take(0));
        while i < self.tasks.len()
            invariant
                i <= self.tasks@.len(),
                all == self.statuses(),
                oldest_first(out@),
                out@.to_multiset() == all.take(i as int).to_multiset(),
            decreases self.tasks@.len() - i,
        {
            let ghost t = all[i as int];
            insert_by_age(&mut out, self.tasks[i].status.clone());
            proof {
                assert(all.take(i + 1) =~= all.take(i as int).push(t));
                broadcast use vstd::seq_lib::group_to_multiset_ensures;

                assert(out@.to_multiset() == all.take(i + 1).to_multiset());
            }
            i += 1;
        }
        assert(all.take(i as int) =~= all);
        out
    }
}

/// Whether no task was created before one that stands in front of it.
pub open spec fn oldest_first(tasks: Seq<TaskStatus>) -> bool {
    forall|i: int, j: int|
        0 <= i < j < tasks.len() ==> !order::before(
            (#[trigger] tasks[j]).created_at@,
            (#[trigger] tasks[i]).created_at@,
        )
}

/// Puts a task behind all that are not younger.
fn insert_by_age(list: &mut Vec<TaskStatus>, t: TaskStatus)
    requires
        oldest_first(old(list)@),
    ensures
        oldest_first(final(list)@),
        final(list)@.to_multiset() == old(list)@.to_multiset().insert(t),
{
    let ghost before = list@;
    let ghost given = t;
    let mut at: usize = list.len();
    while at > 0 && order::comes_before(t.created_at.as_str(), list[at - 1].created_at.as_str())
        invariant
            at <= list@.len(),
            list@ == before,
            forall|k: int|
                at <= k < before.len() ==> order::before(
                    t.created_at@,
                    (#[trigger] before[k]).created_at@,
                ),
        decreases at,
    {
        at -= 1;
    }
    proof {
        assert forall|k: int| at <= k < before.len() implies !order::before(
            (#[trigger] before[k]).created_at@,
            given.created_at@,
        ) by {
            order::law_order_is_total(given.created_at@, before[k].created_at@);
        }
        assert forall|k: int| 0 <= k < at implies !order::before(
            given.created_at@,
            (#[trigger] before[k]).created_at@,
        ) by {
            let last = before[at - 1].created_at@;
            if k < at - 1 {
                assert(!order::before(last, before[k].created_at@));
                order::law_order_is_total(last, before[k].created_at@);
                if order::before(given.created_at@, before[k].created_at@) && order::before(
                    before[k].created_at@,
                    last,
                ) {
                    order::law_order_is_transitive(
                        given.created_at@,
                        before[k].created_at@,
                        last,
                    );
                }
            }
        }
        order::lemma_insert_multiset(before, at as int, given);
    }
    list.insert(at, t);
    proof {
        assert(list@ =~= before.insert(at as int, given));
        assert forall|i: int, j: int| 0 <= i < j < list@.len() implies !order::before(
            (#[trigger] list@[j]).created_at@,
            (#[trigger] list@[i]).created_at@,
        ) by {
            let a = if i < at {
                i
            } else {
                i - 1
            };
            let b = if j < at {
                j
            } else {
                j - 1
            };
            if i != at {
                assert(list@[i] == before[a]);
            }
            if j != at {
                assert(list@[j] == before[b]);
            }
        }
    }
}

// ---------------------------------------------------------------------------
// Signals
// ---------------------------------------------------------------------------

/// The process that a signal for a task is sent to.
pub fn signal_target(task: Option<&TaskStatus>, task_id: &str) -> (r: Result<u32, RpcError>)
    ensures
        is_signal_target(task, task_id@, r),
{
    match task {
        None => Err(RpcError { code: -32004, message: text::concat("task not found: ", task_id) }),
        Some(t) => match t.pid {
            Some(pid) => Ok(pid),
            None => {
                let mut message = text::concat("task ", task_id);
                message.append(" does not have a live pid");
                Err(RpcError { code: -32005, message })
            },
        },
    }
}

/// A signal that a client asked for.
#[derive(Debug, Clone, Copy, PartialEq, Eq, Structural)]
pub enum TaskSignal {
    Stop,
    Kill,
}

impl TaskSignal {
    pub fn number(self) -> (n: i32)
        ensures
            n == (match self {
                TaskSignal::Stop => SIGTERM,
                TaskSignal::Kill => SIGKILL,
            }),
    {
        match self {
            TaskSignal::Stop => SIGTERM,
            TaskSignal::Kill => SIGKILL,
        }
    }
}

/// Whether `after` is a task once a signal was sent to its process. A task that is killed
/// is over at once; one that is stopped is over when its process ends.
pub open spec fn signalled(
    before: TaskStatus,
    signal: TaskSignal,
    now: String,
    after: TaskStatus,
) -> bool {
    &&& after == (TaskStatus {
        state: match signal {
            TaskSignal::Stop => TaskState::Stopping,
            TaskSignal::Kill => TaskState::Killed,
        },
        message: after.message,
        finished_at: match signal {
            TaskSignal::Stop => before.finished_at,
            TaskSignal::Kill => Some(now),
        },
        ..before
    })
    &&& says(
        after.message,
        match signal {
            TaskSignal::Stop => "stop requested"@,
            TaskSignal::Kill => "kill requested"@,
        },
    )
}

/// A task after a signal was sent to its process, or the error about that.
pub fn signal_task(
    status: TaskStatus,
    task_id: &str,
    signal: TaskSignal,
    sent: Result<(), String>,
    now: String,
) -> (r: Result<TaskStatus, RpcError>)
    ensures
        tells_signal(status, task_id@, signal, sent, now, r),
{
    match sent {
        Err(m) => {
            let mut message = text::concat("failed to signal task ", task_id);
            message.append(": ");
            message.append(m.as_str());
            Err(RpcError { code: -32007, message })
        },
        Ok(_) => {
            let mut t = status;
            match signal {
                TaskSignal::Stop => {
                    t.state = TaskState::Stopping;
                    t.message = Some(text::copy_of("stop requested"));
                },
                TaskSignal::Kill => {
                    t.state = TaskState::Killed;
                    t.message = Some(text::copy_of("kill requested"));
                    t.finished_at = Some(now);
                },
            }
            Ok(t)
        },
    }
}

/// A killed task stays as it is when the end of its process is seen; a stopped one takes
/// up room until then, and is over afterwards.
pub proof fn law_signalled_task_ends(
    before: TaskStatus,
    signal: TaskSignal,
    sent_at: String,
    between: TaskStatus,
    exit: WorkerExit,
    seen_at: String,
    after: TaskStatus,
)
    requires
        signalled(before, signal, sent_at, between),
        reconciled(between, exit, seen_at, after),
    ensures
        signal == TaskSignal::Kill ==> !is_active(between.state) && after == between,
        signal == TaskSignal::Stop ==> is_active(between.state) && !is_active(after.state)
            && after.finished_at == Some(seen_at),
{
}

/// A task is active until it has ended, however it ended.
pub proof fn law_tasks_are_active_until_they_end(state: TaskState)
    ensures
        is_active(state) <==> !(state == TaskState::Completed || state == TaskState::Failed || state
            == TaskState::Stopped || state == TaskState::Killed),
{
}

/// How a worker ended decides the state of its task: a kill signal kills it, any other signal
/// stops it, and without a signal it is completed exactly where the worker succeeded. A task
/// that has ended stays as it is.
pub proof fn law_exits_decide_the_state(
    before: TaskStatus,
    exit: WorkerExit,
    now: String,
    after: TaskStatus,
)
    requires
        reconciled(before, exit, now, after),
    ensures
        !is_active(before.state) ==> after == before,
        is_active(before.state) ==> {
            &&& after.finished_at == Some(now)
            &&& (after.uuid, after.kind, after.pid) == (before.uuid, before.kind, before.pid)
            &&& (after.created_at, after.started_at, after.stats) == (
                before.created_at,
                before.started_at,
                before.stats,
            )
            &&& exit is WaitFailed ==> after.state == TaskState::Failed
            &&& exit matches WorkerExit::Exited { code, signal, success, .. } ==> {
                &&& after.exit_code == code
                &&& signal == Some(9i32) <==> after.state == TaskState::Killed
                &&& signal is Some && signal != Some(9i32) <==> after.state == TaskState::Stopped
                &&& signal is None && success <==> after.state == TaskState::Completed
                &&& signal is None && !success <==> after.state == TaskState::Failed
            }
        },
{
}

/// Every method has its own name, and only the list of tasks has two.
pub proof fn law_methods_have_names(name: Seq<char>)
    ensures
        method_named(name) == Some(RpcMethod::CreateScan) <==> name == "task.create_scan"@,
        method_named(name) == Some(RpcMethod::CreateBackup) <==> name == "task.create_backup"@,
        method_named(name) == Some(RpcMethod::CreateRestore) <==> name == "task.create_restore"@,
        method_named(name) == Some(RpcMethod::Stop) <==> name == "task.stop"@,
        method_named(name) == Some(RpcMethod::Kill) <==> name == "task.kill"@,
        method_named(name) == Some(RpcMethod::Get) <==> name == "task.get"@,
        method_named(name) == Some(RpcMethod::List) <==> name == "task.list"@ || name
            == "task.all"@,
{
    reveal_strlit("task.create_scan");
    reveal_strlit("task.create_backup");
    reveal_strlit("task.create_restore");
    reveal_strlit("task.stop");
    reveal_strlit("task.kill");
    reveal_strlit("task.get");
    reveal_strlit("task.list");
    reveal_strlit("task.all");
    assert("task.create_scan"@.len() == 16 && "task.create_backup"@.len() == 18);
    assert("task.create_restore"@.len() == 19 && "task.stop"@.len() == 9);
    assert("task.stop"@[5] == 's' && "task.kill"@[5] == 'k' && "task.list"@[5] == 'l');
    assert("task.get"@[5] == 'g' && "task.all"@[5] == 'a');
}

/// Scans have a limit of their own, and backups and restores share one.
pub proof fn law_limits_by_kind(config: ServerConfig)
    ensures
        most_of(config, TaskKind::Scan) == config.max_scanners_count,
        most_of(config, TaskKind::Backup) == config.max_subtasks_count,
        most_of(config, TaskKind::Restore) == most_of(config, TaskKind::Backup),
{
}

/// An active task counts against one limit and not against the other, and one that has ended
/// against none. Tasks count one by one, wherever they stand.
pub proof fn law_tasks_count_against_one_limit(
    a: Seq<TaskStatus>,
    b: Seq<TaskStatus>,
    t: TaskStatus,
    scans: bool,
)
    ensures
        room_taken(a + b, scans) == room_taken(a, scans) + room_taken(b, scans),
        room_taken(seq![t], true) + room_taken(seq![t], false) == (if is_active(t.state) {
            1nat
        } else {
            0nat
        }),
        t.kind == TaskKind::Scan ==> room_taken(seq![t], false) == 0,
        t.kind != TaskKind::Scan ==> room_taken(seq![t], true) == 0,
    decreases b.len(),
{
    reveal_with_fuel(room_taken, 2);
    assert(seq![t].drop_last() =~= Seq::empty());
    if b.len() == 0 {
        assert(a + b =~= a);
    } else {
        law_tasks_count_against_one_limit(a, b.drop_last(), t, scans);
        assert((a + b).drop_last() =~= a + b.drop_last());
        assert((a + b).last() == b.last());
    }
}

/// A table finds a task exactly under its own identifier.
pub proof fn law_tasks_are_found_by_their_id(tasks: Seq<ManagedTask>, i: int, id: Seq<char>)
    requires
        distinct_ids(tasks),
        0 <= i < tasks.len(),
    ensures
        task_in(tasks, tasks[i].id@) == Some(tasks[i]),
        task_in(tasks, id) matches Some(t) ==> t.id@ == id && tasks.contains(t),
        (forall|k: int| 0 <= k < tasks.len() ==> (#[trigger] tasks[k]).id@ != id) ==> task_in(
            tasks,
            id,
        ) is None,
    decreases tasks.len(),
{
    let front = tasks.drop_last();
    let last = tasks.last();
    assert(tasks[tasks.len() - 1] == last);
    assert(distinct_ids(front)) by {
        assert forall|a: int, b: int| 0 <= a < b < front.len() implies (#[trigger] front[a]).id@
            != (#[trigger] front[b]).id@ by {
            assert(tasks[a].id@ != tasks[b].id@);
        }
    }
    if front.len() > 0 {
        let k: int = if i < front.len() {
            i
        } else {
            0
        };
        law_tasks_are_found_by_their_id(front, k, id);
        if i < front.len() {
            assert(front[i] == tasks[i]);
            assert(tasks[i].id@ != tasks[tasks.len() - 1].id@);
        }
        match task_in(front, id) {
            Some(t) => {
                let n = choose|n: int| 0 <= n < front.len() && front[n] == t;
                assert(tasks[n] == t);
            },
            None => {},
        }
        if forall|k: int| 0 <= k < tasks.len() ==> (#[trigger] tasks[k]).id@ != id {
            assert forall|k: int| 0 <= k < front.len() implies (#[trigger] front[k]).id@ != id by {
                assert(tasks[k].id@ != id);
            }
        }
    } else {
        reveal_with_fuel(task_in, 2);
        assert(tasks.contains(last));
        if last.id@ != id {
            assert(front =~= Seq::empty());
        }
    }
}

/// A signal changes only what it is for: a kill ends the task at once, and a stop leaves it
/// active until its worker ends.
pub proof fn law_signals_do_what_they_say(
    before: TaskStatus,
    signal: TaskSignal,
    now: String,
    after: TaskStatus,
)
    requires
        signalled(before, signal, now, after),
    ensures
        signal == TaskSignal::Kill <==> after.state == TaskState::Killed,
        signal == TaskSignal::Stop <==> after.state == TaskState::Stopping,
        signal == TaskSignal::Kill ==> after.finished_at == Some(now),
        signal == TaskSignal::Stop ==> after.finished_at == before.finished_at,
        is_active(after.state) <==> signal == TaskSignal::Stop,
        (after.uuid, after.kind, after.pid, after.exit_code) == (
            before.uuid,
            before.kind,
            before.pid,
            before.exit_code,
        ),
        (after.created_at, after.started_at, after.stats) == (
            before.created_at,
            before.started_at,
            before.stats,
        ),
{
}

/// Whether `r` says if another task of the given kind may start.
pub open spec fn admits(
    config: ServerConfig,
    tasks: Seq<TaskStatus>,
    kind: TaskKind,
    r: Result<(), String>,
) -> bool {
    ({
        let scans = kind == TaskKind::Scan;
        let running = room_taken(tasks, scans);
        let most = most_of(config, kind);
        match r {
            Ok(_) => running < most,
            Err(e) => running >= most && e@ == limit_text(
                (if scans {
                    "scanner"@
                } else {
                    "subtask"@
                }),
                running,
                most,
            ),
        }
    })
}

/// Whether `r` is a new task of the given kind, or the error about a limit.
pub open spec fn spawns(
    config: ServerConfig,
    tasks: Seq<TaskStatus>,
    kind: TaskKind,
    r: Result<NewTask, RpcError>,
) -> bool {
    ({
        let scans = kind == TaskKind::Scan;
        let running = room_taken(tasks, scans);
        let most = most_of(config, kind);
        match r {
            Ok(task) => {
                &&& running < most
                &&& is_new(task.status, kind)
                &&& task.status.uuid@.len() == 36
                &&& task.files.dir@ == paths::join(config.runtime_dir@, task.status.uuid@)
                &&& task.files.request_file@ == paths::join(task.files.dir@, "request.json"@)
                &&& task.files.status_file@ == paths::join(task.files.dir@, "status.json"@)
                &&& task.files.log_file@ == paths::join(task.files.dir@, "worker.log"@)
            },
            Err(e) => running >= most && e.code == -32001 && e.message@ == limit_text(
                (if scans {
                    "scanner"@
                } else {
                    "subtask"@
                }),
                running,
                most,
            ),
        }
    })
}

/// Whether `r` is a task once its worker is done.
pub open spec fn has_run(
    status: TaskStatus,
    result: Result<TaskStats, String>,
    now: String,
    r: TaskStatus,
) -> bool {
    match result {
        Ok(stats) => {
            &&& r == (TaskStatus {
                state: TaskState::Completed,
                finished_at: Some(now),
                message: r.message,
                stats,
                exit_code: Some(0),
                ..status
            })
            &&& says(r.message, "task completed"@)
        },
        Err(e) => r == (TaskStatus {
            state: TaskState::Failed,
            finished_at: Some(now),
            message: Some(e),
            exit_code: Some(1),
            ..status
        }),
    }
}

/// Whether `r` is the process that a signal for a task is sent to.
pub open spec fn is_signal_target(
    task: Option<&TaskStatus>,
    task_id: Seq<char>,
    r: Result<u32, RpcError>,
) -> bool {
    match task {
        None => r matches Err(e) && e.code == -32004 && e.message@ == "task not found: "@
            + task_id,
        Some(t) => match t.pid {
            Some(pid) => r == Ok::<u32, RpcError>(pid),
            None => r matches Err(e) && e.code == -32005 && e.message@ == "task "@ + task_id
                + " does not have a live pid"@,
        },
    }
}

/// A task is admitted as long as its limit has room, and never beyond it: with the new task
/// the limit still holds. A task that is refused finds its limit reached, and is told which.
pub proof fn law_limits_hold(
    config: ServerConfig,
    tasks: Seq<TaskStatus>,
    kind: TaskKind,
    new: TaskStatus,
    r: Result<(), String>,
)
    requires
        admits(config, tasks, kind, r),
        new.kind == kind,
        is_active(new.state),
    ensures
        r is Ok ==> room_taken(tasks.push(new), kind == TaskKind::Scan) <= most_of(config, kind),
        r is Ok && kind == TaskKind::Scan ==> room_taken(tasks.push(new), false) == room_taken(
            tasks,
            false,
        ),
        r is Ok && kind != TaskKind::Scan ==> room_taken(tasks.push(new), true) == room_taken(
            tasks,
            true,
        ),
        r is Err ==> room_taken(tasks, kind == TaskKind::Scan) >= most_of(config, kind),
        r is Ok <==> room_taken(tasks, kind == TaskKind::Scan) < most_of(config, kind),
{
    assert(tasks.push(new).drop_last() =~= tasks);
}

/// A task is spawned exactly where it is admitted. It is of the kind that was asked for, it
/// counts against the limit from then on, and all its files lie in a directory of its own,
/// which is named after it.
pub proof fn law_spawned_tasks_count(
    config: ServerConfig,
    tasks: Seq<TaskStatus>,
    kind: TaskKind,
    r: Result<NewTask, RpcError>,
)
    requires
        spawns(config, tasks, kind, r),
        config.runtime_dir@.len() > 0,
    ensures
        r is Ok <==> room_taken(tasks, kind == TaskKind::Scan) < most_of(config, kind),
        r matches Ok(t) ==> {
            &&& t.status.kind == kind
            &&& is_active(t.status.state)
            &&& room_taken(tasks.push(t.status), kind == TaskKind::Scan) == room_taken(
                tasks,
                kind == TaskKind::Scan,
            ) + 1
            &&& paths::is_name(t.status.uuid@) ==> paths::file_name(t.files.dir@) == Some(
                t.status.uuid@,
            )
        },
        r matches Err(e) ==> e.code == -32001,
{
    match r {
        Ok(t) => {
            assert(tasks.push(t.status).drop_last() =~= tasks);
            if paths::is_name(t.status.uuid@) {
                paths::law_joined_name_is_last(config.runtime_dir@, t.status.uuid@);
            }
        },
        Err(_) => {},
    }
}

/// A worker that is done leaves its task completed with what it did, or failed with the text
/// of its error; either way it is over.
pub proof fn law_workers_leave_their_result(
    status: TaskStatus,
    result: Result<TaskStats, String>,
    now: String,
    r: TaskStatus,
)
    requires
        has_run(status, result, now, r),
    ensures
        !is_active(r.state),
        r.state == TaskState::Completed <==> result is Ok,
        r.state == TaskState::Failed <==> result is Err,
        r.exit_code == Some(0i32) <==> result is Ok,
        result matches Ok(stats) ==> r.stats == stats,
        result matches Err(e) ==> r.message == Some(e),
        r.finished_at == Some(now),
        (r.uuid, r.kind, r.pid, r.created_at, r.started_at) == (
            status.uuid,
            status.kind,
            status.pid,
            status.created_at,
            status.started_at,
        ),
{
}

/// A signal goes to the process of its own task; without a task or a process it goes nowhere.
pub proof fn law_signals_go_to_their_process(
    task: Option<&TaskStatus>,
    id: Seq<char>,
    r: Result<u32, RpcError>,
)
    requires
        is_signal_target(task, id, r),
    ensures
        r is Ok <==> (task matches Some(t) && t.pid is Some),
        r matches Ok(pid) ==> (task matches Some(t) && t.pid == Some(pid)),
        r matches Err(e) ==> (e.code == -32004 <==> task is None),
{
}

/// Whether `r` is a task after a signal was sent to its process.
pub open spec fn tells_signal(
    status: TaskStatus,
    task_id: Seq<char>,
    signal: TaskSignal,
    sent: Result<(), String>,
    now: String,
    r: Result<TaskStatus, RpcError>,
) -> bool {
    match sent {
        Err(m) => r matches Err(e) && e.code == -32007 && e.message@
            == "failed to signal task "@ + task_id + ": "@ + m@,
        Ok(_) => r matches Ok(t) && signalled(status, signal, now, t),
    }
}

/// A task changes only where its signal was sent.
pub proof fn law_signals_that_were_sent_change_the_task(
    status: TaskStatus,
    id: Seq<char>,
    signal: TaskSignal,
    sent: Result<(), String>,
    now: String,
    r: Result<TaskStatus, RpcError>,
)
    requires
        tells_signal(status, id, signal, sent, now, r),
    ensures
        r is Ok <==> sent is Ok,
        r matches Ok(t) ==> (signal == TaskSignal::Kill <==> t.state == TaskState::Killed),
        r matches Ok(t) ==> t.uuid == status.uuid && t.pid == status.pid && t.kind == status.kind,
        r matches Err(e) ==> e.code == -32007,
{
}

/// A list of tasks begins with the oldest one, and none that follows was created before it.
pub proof fn law_lists_begin_with_the_oldest(tasks: Seq<TaskStatus>, i: int)
    requires
        oldest_first(tasks),
        0 <= i < tasks.len(),
    ensures
        tasks[0].created_at@ == tasks[i].created_at@ || order::before(
            tasks[0].created_at@,
            tasks[i].created_at@,
        ),
{
    order::law_order_is_total(tasks[0].created_at@, tasks[i].created_at@);
    if i > 0 {
        assert(!order::before(tasks[i].created_at@, tasks[0].created_at@));
    }
}

} // verus!
