//! The function runtime: where a run comes from, how it ended, the script
//! that is handed to the JavaScript engine, and the log entry of a run.
use vstd::prelude::*;
use vstd::string::StringExecFns;

verus! {

/// The stage a function is run from.
#[derive(Debug, Clone, Copy, PartialEq, Eq)]
pub enum Source {
    Dev,
    Staging,
    Prod,
}

/// How a run ended.
#[derive(Debug, Clone, Copy, PartialEq, Eq)]
pub enum Status {
    Running,
    Success,
    Failed,
    Timeout,
}

/// The name of a stage as it is stored.
pub open spec fn source_name(s: Source) -> Seq<char> {
    match s {
        Source::Dev => "dev"@,
        Source::Staging => "staging"@,
        Source::Prod => "prod"@,
    }
}

/// The name of an outcome as it is stored.
pub open spec fn status_name(s: Status) -> Seq<char> {
    match s {
        Status::Running => "running"@,
        Status::Success => "success"@,
        Status::Failed => "failed"@,
        Status::Timeout => "timeout"@,
    }
}

impl Source {
    /// The stored name of this stage.
    pub fn to_string(&self) -> (r: String)
        ensures
            r@ == source_name(*self),
    {
        match self {
            Source::Dev => "dev".to_owned(),
            Source::Staging => "staging".to_owned(),
            Source::Prod => "prod".to_owned(),
        }
    }
}

impl Status {
    /// The stored name of this outcome.
    pub fn to_string(&self) -> (r: String)
        ensures
            r@ == status_name(*self),
    {
        match self {
            Status::Running => "running".to_owned(),
            Status::Success => "success".to_owned(),
            Status::Failed => "failed".to_owned(),
            Status::Timeout => "timeout".to_owned(),
        }
    }
}

/// Distinct stages, and distinct outcomes, are stored under distinct names,
/// so a stored name tells which one it was.
pub proof fn lemma_names_distinct(a: Source, b: Source, x: Status, y: Status)
    ensures
        a != b ==> source_name(a) != source_name(b),
        x != y ==> status_name(x) != status_name(y),
{
    reveal_strlit("dev");
    reveal_strlit("staging");
    reveal_strlit("prod");
    reveal_strlit("running");
    reveal_strlit("success");
    reveal_strlit("failed");
    reveal_strlit("timeout");
    if a != b && source_name(a) == source_name(b) {
        assert(source_name(a).len() == source_name(b).len());
        assert(source_name(a)[0] == source_name(b)[0]);
    }
    if x != y && status_name(x) == status_name(y) {
        assert(status_name(x).len() == status_name(y).len());
        assert(status_name(x)[0] == status_name(y)[0]);
    }
}

/// What a run printed and returned.
#[derive(Debug)]
pub struct ExecutionResult {
    pub result: String,
    pub console_log: Option<String>,
    pub console_error: Option<String>,
}

impl ExecutionResult {
    pub fn new(result: String, console_log: Option<String>, console_error: Option<String>) -> (r: Self)
        ensures
            r.result == result,
            r.console_log == console_log,
            r.console_error == console_error,
    {
        ExecutionResult { result, console_log, console_error }
    }
}

/// A message that a running script posts under a key.
#[derive(Debug)]
pub struct MsgArgs {
    pub id: String,
    pub key: String,
    pub msg: String,
}

/// The helper every script gets, through which it posts messages.
pub open spec fn add_msg_helper() -> Seq<char> {
    " function add_msg(key,msg){
        result(inner_id,key,msg);
    }"@
}

/// The script run for a function: a prelude that names the run id, parses the
/// arguments and defines the message helper, followed by the function's code.
pub open spec fn script_text(id: Seq<char>, args: Seq<char>, code: Seq<char>) -> Seq<char> {
    "const inner_id=\""@ + id + "\";
        const args = JSON.parse('"@ + args + "');
    "@ + add_msg_helper() + "
    "@ + code
}

/// The script to run `code` under the run id `id` with the JSON arguments `args`.
pub fn script_source(id: &str, args: &str, code: &str) -> (r: String)
    ensures
        r@ == script_text(id@, args@, code@),
{
    let mut s = "const inner_id=\"".to_owned();
    s.append(id);
    s.append("\";
        const args = JSON.parse('");
    s.append(args);
    s.append("');
    ");
    s.append(" function add_msg(key,msg){
        result(inner_id,key,msg);
    }");
    s.append("
    ");
    s.append(code);
    assert(s@ =~= script_text(id@, args@, code@));
    s
}

/// Every instant `time` represents lies within this many nanoseconds of the
/// Unix epoch (its dates span at most years -999999 to 999999).
pub open spec fn instant_bound() -> int {
    1_000_000_000_000_000_000_000_000_000
}

/// Calls `time::OffsetDateTime::now_utc` and gives the instant as nanoseconds
/// since the Unix epoch (`unix_timestamp_nanos`). The value depends on the
/// clock; only that it is an instant `time` can represent is stated.
#[verifier::external_body]
fn now_utc_nanos() -> (r: i128)
    ensures
        -instant_bound() < r < instant_bound(),
{
    time::OffsetDateTime::now_utc().unix_timestamp_nanos()
}

/// The whole milliseconds in `nanos` nanoseconds, rounded toward zero.
pub open spec fn whole_millis(nanos: int) -> int {
    if nanos >= 0 {
        nanos / 1_000_000
    } else {
        -((-nanos) / 1_000_000)
    }
}

/// The log entry of one run.
#[derive(Debug)]
pub struct AddReq {
    pub function_name: String,
    pub start_time: i128,
    pub end_time: i128,
    pub status: String,
    pub execution_user_id: Option<u128>,
    pub source: String,
    pub source_id: u128,
    pub result: Option<String>,
    pub console_log: Option<String>,
    pub console_error: Option<String>,
    pub duration_ms: i64,
    pub is_success: bool,
    pub arguments: Option<String>,
}

impl AddReq {
    /// The log entry of a run that started at `start_time` (nanoseconds since
    /// the Unix epoch) and ends now: its duration is the whole milliseconds
    /// between the two instants.
    pub fn new(
        function_name: String,
        start_time: i128,
        source: Source,
        status: Status,
        user_id: Option<u128>,
        source_id: &u128,
        is_success: bool,
        arguments: String,
        result_log: String,
        console_log: Option<String>,
        console_error: Option<String>,
    ) -> (r: Self)
        requires
            -instant_bound() < start_time < instant_bound(),
        ensures
            r.function_name == function_name,
            r.start_time == start_time,
            -instant_bound() < r.end_time < instant_bound(),
            r.duration_ms == whole_millis(r.end_time - start_time) as i64,
            r.status@ == status_name(status),
            r.execution_user_id == user_id,
            r.source@ == source_name(source),
            r.source_id == *source_id,
            r.result == Some(result_log),
            r.console_log == console_log,
            r.console_error == console_error,
            r.is_success == is_success,
            r.arguments == Some(arguments),
    {
        let now = now_utc_nanos();
        let elapsed: i128 = now - start_time;
        let millis: i128 = if elapsed >= 0 {
            elapsed / 1_000_000
        } else {
            -((-elapsed) / 1_000_000)
        };
        AddReq {
            function_name,
            start_time,
            end_time: now,
            status: status.to_string(),
            execution_user_id: user_id,
            source: source.to_string(),
            source_id: *source_id,
            result: Some(result_log),
            console_log,
            console_error,
            duration_ms: millis as i64,
            is_success,
            arguments: Some(arguments),
        }
    }
}

/// Runs and stores functions.
pub struct RuntimeFuctionService {}

/// Stores and lists the saved versions of functions.
pub struct RuntimeFuctionHistoryService {}

/// Stores and lists the logs of runs.
pub struct RuntimeFuctionLogService {}

impl RuntimeFuctionService {
    pub fn new() -> (r: Self)
        ensures
            r == (RuntimeFuctionService {}),
    {
        RuntimeFuctionService {}
    }
}

impl RuntimeFuctionHistoryService {
    pub fn new() -> (r: Self)
        ensures
            r == (RuntimeFuctionHistoryService {}),
    {
        RuntimeFuctionHistoryService {}
    }
}

impl RuntimeFuctionLogService {
    pub fn new() -> (r: Self)
        ensures
            r == (RuntimeFuctionLogService {}),
    {
        RuntimeFuctionLogService {}
    }
}

/// The services every request handler reaches.
pub struct ServiceContext {
    pub runtime_funciton: RuntimeFuctionService,
    pub runtime_function_log: RuntimeFuctionLogService,
    pub runtime_function_history: RuntimeFuctionHistoryService,
}

impl Default for ServiceContext {
    fn default() -> (r: Self)
        ensures
            r == (ServiceContext {
                runtime_funciton: RuntimeFuctionService {},
                runtime_function_log: RuntimeFuctionLogService {},
                runtime_function_history: RuntimeFuctionHistoryService {},
            }),
    {
        ServiceContext {
            runtime_funciton: RuntimeFuctionService::new(),
            runtime_function_log: RuntimeFuctionLogService::new(),
            runtime_function_history: RuntimeFuctionHistoryService::new(),
        }
    }
}

} // verus!
