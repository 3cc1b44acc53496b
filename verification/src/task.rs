//! Offloaded tasks: results, the board of finished tasks, and the
//! decisions of task execution (which HTTP method, which file operation,
//! what a response or failure is reported as).
use vstd::prelude::*;
use crate::assoc::{assoc_map, keys_unique, lemma_assoc_absent, lemma_assoc_index, lemma_assoc_push, lemma_assoc_update, lemma_unique_push};
use crate::text::{str_eq, copy_bytes, to_lowercase, to_uppercase, unicode_lower, unicode_upper};

verus! {

/// Result of an offloaded task.
#[derive(Debug)]
pub struct TaskResult {
    pub success: bool,
    pub data: Vec<u8>,
    pub error: Option<String>,
}

/// A task result as values.
pub struct ResultView {
    pub success: bool,
    pub data: Seq<u8>,
    pub error: Option<Seq<char>>,
}

/// An optional string's characters.
pub open spec fn text_of(o: Option<String>) -> Option<Seq<char>> {
    match o {
        Some(s) => Some(s@),
        None => None,
    }
}

impl TaskResult {
    /// This result as values.
    pub open spec fn view_result(&self) -> ResultView {
        ResultView { success: self.success, data: self.data@, error: text_of(self.error) }
    }
}

impl Clone for TaskResult {
    fn clone(&self) -> (r: TaskResult)
        ensures
            r.view_result() == self.view_result(),
    {
        TaskResult {
            success: self.success,
            data: copy_bytes(&self.data),
            error: match &self.error {
                Some(e) => Some(e.clone()),
                None => None,
            },
        }
    }
}

/// Task status for queries.
#[derive(Debug)]
pub struct TaskStatus {
    pub task_id: String,
    pub completed: bool,
    pub result: Option<TaskResult>,
}

/// The finished tasks, by task id.
pub struct TaskBoard {
    completed: Vec<(String, TaskResult)>,
}

impl TaskBoard {
    /// The entries as (task id, result).
    pub closed spec fn entries(&self) -> Seq<(Seq<char>, ResultView)> {
        self.completed@.map_values(|e: (String, TaskResult)| (e.0@, e.1.view_result()))
    }

    /// The finished tasks' results by task id.
    pub closed spec fn finished(&self) -> Map<Seq<char>, ResultView> {
        assoc_map(self.entries())
    }

    #[verifier::type_invariant]
    spec fn well_formed(&self) -> bool {
        keys_unique(self.entries())
    }

    /// A board with no finished task.
    pub fn new() -> (b: TaskBoard)
        ensures
            b.finished() == Map::<Seq<char>, ResultView>::empty(),
    {
        let b = TaskBoard { completed: Vec::new() };
        assert(b.entries() =~= Seq::empty());
        b
    }

    fn find(&self, task_id: &str) -> (r: Option<usize>)
        ensures
            r matches Some(i) ==> i < self.completed@.len() && self.entries()[i as int].0 == task_id@,
            r is None ==> forall|i: int| 0 <= i < self.entries().len() ==> self.entries()[i].0 != task_id@,
    {
        let key = task_id.to_string();
        let mut i: usize = 0;
        while i < self.completed.len()
            invariant
                i <= self.completed@.len(),
                key@ == task_id@,
                forall|j: int| 0 <= j < i ==> self.entries()[j].0 != task_id@,
            decreases self.completed@.len() - i,
        {
            if self.completed[i].0 == key {
                return Some(i);
            }
            i = i + 1;
        }
        None
    }

    /// Stores a finished task's result (a later result for the same id
    /// replaces the earlier one).
    pub fn record(&mut self, task_id: String, result: TaskResult)
        ensures
            final(self).finished() == old(self).finished().insert(task_id@, result.view_result()),
    {
        proof { use_type_invariant(&*self); }
        let ghost rv = result.view_result();
        let ghost k = task_id@;
        let found = self.find(task_id.as_str());
        let mut v: Vec<(String, TaskResult)> = Vec::new();
        std::mem::swap(&mut v, &mut self.completed);
        let ghost ev = v@.map_values(|e: (String, TaskResult)| (e.0@, e.1.view_result()));
        match found {
            Some(i) => {
                proof { lemma_assoc_update(ev, i as int, rv); }
                v.set(i, (task_id, result));
                assert(v@.map_values(|e: (String, TaskResult)| (e.0@, e.1.view_result())) =~= ev.update(i as int, (ev[i as int].0, rv)));
            },
            None => {
                proof {
                    lemma_assoc_absent(ev, k);
                    lemma_unique_push(ev, k, rv);
                    lemma_assoc_push(ev, k, rv);
                }
                v.push((task_id, result));
                assert(v@.map_values(|e: (String, TaskResult)| (e.0@, e.1.view_result())) =~= ev.push((k, rv)));
            },
        }
        self.completed = v;
    }

    /// The status of a task: completed with its result when it has
    /// finished, otherwise not completed and without result.
    pub fn status(&self, task_id: &str) -> (s: TaskStatus)
        ensures
            s.task_id@ == task_id@,
            s.completed == self.finished().dom().contains(task_id@),
            s.completed ==> (s.result matches Some(r) && r.view_result() == self.finished()[task_id@]),
            !s.completed ==> s.result is None,
    {
        proof { use_type_invariant(&*self); }
        match self.find(task_id) {
            Some(i) => {
                proof { lemma_assoc_index(self.entries(), i as int); }
                TaskStatus { task_id: task_id.to_string(), completed: true, result: Some(self.completed[i].1.clone()) }
            },
            None => {
                proof { lemma_assoc_absent(self.entries(), task_id@); }
                TaskStatus { task_id: task_id.to_string(), completed: false, result: None }
            },
        }
    }
}

/// Law: once a task's result is recorded, its status is completed with that
/// result, and the status of every other task is unchanged.
pub proof fn law_record_then_status(m: Map<Seq<char>, ResultView>, id: Seq<char>, r: ResultView, other: Seq<char>)
    requires
        other != id,
    ensures
        m.insert(id, r).dom().contains(id),
        m.insert(id, r)[id] == r,
        m.insert(id, r).dom().contains(other) == m.dom().contains(other),
        m.dom().contains(other) ==> m.insert(id, r)[other] == m[other],
{
}

/// HTTP methods an offloaded request can use.
#[derive(Debug, Clone, Copy, PartialEq, Eq, Structural)]
pub enum HttpMethod {
    Get,
    Post,
    Put,
    Delete,
    Patch,
}

/// The method named (case-insensitively, by Unicode upper-casing): POST,
/// PUT, DELETE and PATCH; anything else is GET.
pub open spec fn method_named(upper: Seq<char>) -> HttpMethod {
    if upper == "POST"@ {
        HttpMethod::Post
    } else if upper == "PUT"@ {
        HttpMethod::Put
    } else if upper == "DELETE"@ {
        HttpMethod::Delete
    } else if upper == "PATCH"@ {
        HttpMethod::Patch
    } else {
        HttpMethod::Get
    }
}

/// The HTTP method for a method name already upper-cased.
pub fn method_for_upper(upper: &str) -> (m: HttpMethod)
    ensures
        m == method_named(upper@),
{
    if str_eq(upper, "POST") {
        HttpMethod::Post
    } else if str_eq(upper, "PUT") {
        HttpMethod::Put
    } else if str_eq(upper, "DELETE") {
        HttpMethod::Delete
    } else if str_eq(upper, "PATCH") {
        HttpMethod::Patch
    } else {
        HttpMethod::Get
    }
}

/// The HTTP method an offloaded request uses.
pub fn http_method_for(method: &str) -> (m: HttpMethod)
    ensures
        m == method_named(unicode_upper(method@)),
{
    let u = to_uppercase(method);
    method_for_upper(u.as_str())
}

/// What a file task does.
#[derive(Debug, Clone, Copy, PartialEq, Eq, Structural)]
pub enum FileTaskPlan {
    /// Read the file.
    Read,
    /// Create the parent directory, then write the data.
    Write,
    /// Remove the file.
    Delete,
    /// A write without data: refused.
    MissingData,
    /// An operation other than read, write or delete: refused.
    Unknown,
}

/// The file operation named (case-insensitively, by Unicode lower-casing).
pub open spec fn file_plan(lower: Seq<char>, has_data: bool) -> FileTaskPlan {
    if lower == "read"@ {
        FileTaskPlan::Read
    } else if lower == "write"@ {
        if has_data { FileTaskPlan::Write } else { FileTaskPlan::MissingData }
    } else if lower == "delete"@ {
        FileTaskPlan::Delete
    } else {
        FileTaskPlan::Unknown
    }
}

/// What a file task does, for an operation name already lower-cased.
pub fn plan_for_lower(lower: &str, has_data: bool) -> (p: FileTaskPlan)
    ensures
        p == file_plan(lower@, has_data),
{
    if str_eq(lower, "read") {
        FileTaskPlan::Read
    } else if str_eq(lower, "write") {
        if has_data { FileTaskPlan::Write } else { FileTaskPlan::MissingData }
    } else if str_eq(lower, "delete") {
        FileTaskPlan::Delete
    } else {
        FileTaskPlan::Unknown
    }
}

/// Decides what a file task does.
pub fn plan_file_task(operation: &str, has_data: bool) -> (p: FileTaskPlan)
    ensures
        p == file_plan(unicode_lower(operation@), has_data),
{
    let l = to_lowercase(operation);
    plan_for_lower(l.as_str(), has_data)
}

/// A successful result carrying `data`.
pub fn succeeded(data: Vec<u8>) -> (r: TaskResult)
    ensures
        r.view_result() == (ResultView { success: true, data: data@, error: None }),
{
    TaskResult { success: true, data, error: None }
}

/// A failed result with no data and the given message.
pub fn failed(message: String) -> (r: TaskResult)
    ensures
        r.view_result() == (ResultView { success: false, data: Seq::empty(), error: Some(message@) }),
{
    let r = TaskResult { success: false, data: Vec::new(), error: Some(message) };
    assert(r.data@ =~= Seq::<u8>::empty());
    r
}

fn joined(prefix: &str, detail: &str) -> (s: String)
    ensures
        s@ == prefix@ + detail@,
{
    let mut s = prefix.to_string();
    s.append(detail);
    s
}

/// The answer to a refused plan: a write without data, or an unknown
/// operation (named in the message).
pub fn refusal(plan: FileTaskPlan, operation: &str) -> (r: TaskResult)
    requires
        plan == FileTaskPlan::MissingData || plan == FileTaskPlan::Unknown,
    ensures
        plan == FileTaskPlan::MissingData ==> r.view_result()
            == (ResultView { success: false, data: Seq::empty(), error: Some("No data provided for write operation"@) }),
        plan == FileTaskPlan::Unknown ==> r.view_result()
            == (ResultView { success: false, data: Seq::empty(), error: Some("Unknown file operation: "@ + operation@) }),
{
    match plan {
        FileTaskPlan::MissingData => failed("No data provided for write operation".to_string()),
        _ => failed(joined("Unknown file operation: ", operation)),
    }
}

/// The step of a file or HTTP task that failed.
#[derive(Debug, Clone, Copy, PartialEq, Eq, Structural)]
pub enum TaskFailure {
    ReadFile,
    CreateDirectory,
    WriteFile,
    DeleteFile,
    SendRequest,
    ReadBody,
}

/// The message prefix of a failed step.
pub open spec fn failure_prefix(f: TaskFailure) -> Seq<char> {
    match f {
        TaskFailure::ReadFile => "Failed to read file: "@,
        TaskFailure::CreateDirectory => "Failed to create directory: "@,
        TaskFailure::WriteFile => "Failed to write file: "@,
        TaskFailure::DeleteFile => "Failed to delete file: "@,
        TaskFailure::SendRequest => "HTTP request failed: "@,
        TaskFailure::ReadBody => "Failed to read response body: "@,
    }
}

/// A failed result for a step that failed with the given error text.
pub fn step_failed(f: TaskFailure, detail: &str) -> (r: TaskResult)
    ensures
        r.view_result() == (ResultView { success: false, data: Seq::empty(), error: Some(failure_prefix(f) + detail@) }),
{
    let prefix = match f {
        TaskFailure::ReadFile => "Failed to read file: ",
        TaskFailure::CreateDirectory => "Failed to create directory: ",
        TaskFailure::WriteFile => "Failed to write file: ",
        TaskFailure::DeleteFile => "Failed to delete file: ",
        TaskFailure::SendRequest => "HTTP request failed: ",
        TaskFailure::ReadBody => "Failed to read response body: ",
    };
    failed(joined(prefix, detail))
}

/// The result of an HTTP task whose response arrived: successful exactly
/// for 2xx statuses; otherwise the error is `HTTP ` and the status text.
pub fn http_response_result(status_code: u16, status_text: &str, body: Vec<u8>) -> (r: TaskResult)
    ensures
        r.view_result() == (ResultView {
            success: 200 <= status_code < 300,
            data: body@,
            error: if 200 <= status_code < 300 { None } else { Some("HTTP "@ + status_text@) },
        }),
{
    let ok = 200 <= status_code && status_code < 300;
    TaskResult { success: ok, data: body, error: if ok { None } else { Some(joined("HTTP ", status_text)) } }
}

/// How long an HTTP task may run, in seconds.
pub fn http_task_timeout_secs() -> (s: u64)
    ensures
        s == 60,
{
    60
}

/// How long a file task may run, in seconds.
pub fn file_task_timeout_secs() -> (s: u64)
    ensures
        s == 30,
{
    30
}

/// The result of an HTTP task that ran past its 60 s limit.
pub fn http_timeout_result() -> (r: TaskResult)
    ensures
        r.view_result() == (ResultView { success: false, data: Seq::empty(), error: Some("HTTP task timed out (60s)"@) }),
{
    failed("HTTP task timed out (60s)".to_string())
}

/// The result of a file task that ran past its 30 s limit.
pub fn file_timeout_result() -> (r: TaskResult)
    ensures
        r.view_result() == (ResultView { success: false, data: Seq::empty(), error: Some("File operation timed out (30s)"@) }),
{
    failed("File operation timed out (30s)".to_string())
}

/// The result of a custom task: custom tasks are not implemented, and the
/// message names the type and shows the payload.
pub fn custom_task_result(task_type: &str, payload: &str) -> (r: TaskResult)
    ensures
        r.view_result() == (ResultView {
            success: false,
            data: Seq::empty(),
            error: Some("Custom task type '"@ + task_type@ + "' not yet implemented. Payload: "@ + payload@),
        }),
{
    let mut s = "Custom task type '".to_string();
    s.append(task_type);
    s.append("' not yet implemented. Payload: ");
    s.append(payload);
    failed(s)
}

} // verus!
