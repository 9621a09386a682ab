use vstd::math::min;
use vstd::prelude::*;

use crate::bytes::{decimal_value, parse_decimal, same_bytes, trim, trim_bytes};
use crate::error::{error_text, HttpError};
use crate::head::ResponseMeta;
use crate::method::Method;
use crate::request::pairs_view;

verus! {

/// Where a transfer task stands; exactly one status is active at a time.
#[derive(Clone, Copy, Debug, PartialEq, Eq, Structural)]
pub enum TaskStatus {
    Init,
    Negotiating,
    /// Reserved: handing the task to another protocol.
    ProtocolSwitch,
    Downloading,
    Uploading,
    /// Held by the host; a step does nothing.
    Paused,
    /// Reserved.
    Resuming,
    /// Reserved.
    Syncing,
    Completed,
    Errored,
}

/// What a step of the host does for a task in a given status.
#[derive(Clone, Copy, Debug, PartialEq, Eq, Structural)]
pub enum StepAction {
    /// Check the settings and derive the port and the upload length.
    Initialize,
    /// Open the transport, send the request head and read the response head.
    Negotiate,
    /// Read one buffer's worth of the response body.
    Download,
    /// Send one buffer's worth of the request body.
    Upload,
    /// Nothing to do on this step.
    Wait,
    /// The task is over: disable it and schedule no more steps for it.
    Stop,
}

/// What one read from the transport gave.
#[derive(Clone, Copy, Debug, PartialEq, Eq, Structural)]
pub enum ReadOutcome {
    /// This many bytes; none means the peer closed the stream.
    Data(usize),
    /// No data yet: not an error, try again on the next step.
    WouldBlock,
    /// A hard failure of the transport.
    Failed,
}

pub open spec fn action_for(s: TaskStatus) -> StepAction {
    match s {
        TaskStatus::Init => StepAction::Initialize,
        TaskStatus::Negotiating => StepAction::Negotiate,
        TaskStatus::Downloading => StepAction::Download,
        TaskStatus::Uploading => StepAction::Upload,
        TaskStatus::Completed => StepAction::Stop,
        TaskStatus::Errored => StepAction::Stop,
        _ => StepAction::Wait,
    }
}

/// What a step does for a task in the status `s`.
pub fn step_action(s: TaskStatus) -> (r: StepAction)
    ensures
        r == action_for(s),
{
    match s {
        TaskStatus::Init => StepAction::Initialize,
        TaskStatus::Negotiating => StepAction::Negotiate,
        TaskStatus::Downloading => StepAction::Download,
        TaskStatus::Uploading => StepAction::Upload,
        TaskStatus::Completed => StepAction::Stop,
        TaskStatus::Errored => StepAction::Stop,
        _ => StepAction::Wait,
    }
}

/// How far a download has come, in millionths: the received bytes over
/// the expected ones, or 0 while the length is unknown.
pub open spec fn progress(received: u64, expected: Option<u64>) -> int {
    match expected {
        Some(n) => if n > 0 {
            (received as int * 1_000_000) / (n as int)
        } else {
            0
        },
        None => 0,
    }
}

/// `Content-Length`
pub open spec fn content_length_name() -> Seq<u8> {
    seq![67u8, 111, 110, 116, 101, 110, 116, 45, 76, 101, 110, 103, 116, 104]
}

/// The value of the last header named `name`, as a map that takes the
/// headers in order would hold it.
pub open spec fn last_value(h: Seq<(Seq<u8>, Seq<u8>)>, name: Seq<u8>) -> Option<Seq<u8>>
    decreases h.len(),
{
    if h.len() == 0 {
        None
    } else if h.last().0 == name {
        Some(h.last().1)
    } else {
        last_value(h.drop_last(), name)
    }
}

/// The download length that response headers declare: `None` (no bound)
/// without a `Content-Length`, an error when its value is no number.
pub open spec fn declared_length(h: Seq<(Seq<u8>, Seq<u8>)>) -> Result<Option<u64>, HttpError> {
    match last_value(h, content_length_name()) {
        None => Ok(None),
        Some(v) => match decimal_value(trim(v)) {
            Some(n) => if n <= u64::MAX {
                Ok(Some(n as u64))
            } else {
                Err(HttpError::ContentLengthUnparsable)
            },
            None => Err(HttpError::ContentLengthUnparsable),
        },
    }
}

/// The download length that the response headers declare.
pub fn content_length(headers: &Vec<(Vec<u8>, Vec<u8>)>) -> (r: Result<Option<u64>, HttpError>)
    ensures
        r == declared_length(pairs_view(headers@)),
{
    let name: Vec<u8> = vec![67u8, 111, 110, 116, 101, 110, 116, 45, 76, 101, 110, 103, 116, 104];
    let mut found: Option<usize> = None;
    let mut i: usize = 0;
    while i < headers.len()
        invariant
            i <= headers@.len(),
            name@ == content_length_name(),
            match found {
                Some(k) => k < i && last_value(
                    pairs_view(headers@).subrange(0, i as int),
                    name@,
                ) == Some(headers@[k as int].1@),
                None => last_value(pairs_view(headers@).subrange(0, i as int), name@) is None,
            },
        decreases headers.len() - i,
    {
        let ghost h = pairs_view(headers@).subrange(0, i as int + 1);
        assert(h.drop_last() =~= pairs_view(headers@).subrange(0, i as int));
        if same_bytes(headers[i].0.as_slice(), name.as_slice()) {
            found = Some(i);
        }
        i = i + 1;
    }
    assert(pairs_view(headers@).subrange(0, i as int) =~= pairs_view(headers@));
    match found {
        None => Ok(None),
        Some(k) => {
            let v = trim_bytes(headers[k].1.as_slice());
            match parse_decimal(v.as_slice(), u64::MAX) {
                Some(n) => Ok(Some(n)),
                None => Err(HttpError::ContentLengthUnparsable),
            }
        },
    }
}

/// The amount to upload: the length set explicitly, else the size of the
/// body, else nothing when there is no body.
pub fn upload_content_length(explicit: Option<u64>, body_size: Option<u64>) -> (r: u64)
    ensures
        r == match explicit {
            Some(n) => n,
            None => match body_size {
                Some(n) => n,
                None => 0,
            },
        },
{
    match explicit {
        Some(n) => n,
        None => match body_size {
            Some(n) => n,
            None => 0,
        },
    }
}

/// The per-step buffer size; it must be set.
pub fn get_buffer_size(setting: Option<usize>) -> (r: Result<usize, HttpError>)
    ensures
        r == match setting {
            Some(n) => Ok::<usize, HttpError>(n),
            None => Err(HttpError::MissingRequiredSetting),
        },
{
    match setting {
        Some(n) => Ok(n),
        None => Err(HttpError::MissingRequiredSetting),
    }
}

/// A transfer task: its status, what it was set up with, its counters, the
/// response head once read, and the text of its error once it failed.
pub struct Task {
    pub status: TaskStatus,
    pub method: Method,
    pub buffer_size: usize,
    /// The number of body bytes the request declares.
    pub upload_length: u64,
    /// Whether the request carries a body.
    pub has_body: bool,
    pub sent: u64,
    pub received: u64,
    /// The download length; `None` when the response declares none.
    pub expected: Option<u64>,
    pub response: Option<ResponseMeta>,
    pub error: Vec<u8>,
}

impl Task {
    /// The counters never pass their bounds, and nothing is received before
    /// the download starts.
    pub open spec fn wf(&self) -> bool {
        &&& self.sent <= self.upload_length
        &&& (self.expected matches Some(n) ==> self.received <= n)
        &&& (self.status == TaskStatus::Init || self.status == TaskStatus::Negotiating
            || self.status == TaskStatus::Uploading) ==> self.received == 0
    }

    /// Whether two tasks were set up alike: same method, buffer size,
    /// declared upload length and body.
    pub open spec fn same_setup(&self, other: &Task) -> bool {
        &&& self.method == other.method
        &&& self.buffer_size == other.buffer_size
        &&& self.upload_length == other.upload_length
        &&& self.has_body == other.has_body
    }

    pub open spec fn progress_of(&self) -> int {
        progress(self.received, self.expected)
    }

    /// A task that has not started.
    pub fn new(method: Method, buffer_size: usize, upload_length: u64, has_body: bool) -> (r: Task)
        ensures
            r.wf(),
            r.status == TaskStatus::Init,
            r.method == method,
            r.buffer_size == buffer_size,
            r.upload_length == upload_length,
            r.has_body == has_body,
            r.sent == 0,
            r.received == 0,
            r.expected is None,
            r.response is None,
            r.error@.len() == 0,
    {
        Task {
            status: TaskStatus::Init,
            method,
            buffer_size,
            upload_length,
            has_body,
            sent: 0,
            received: 0,
            expected: None,
            response: None,
            error: Vec::new(),
        }
    }

    /// The progress in millionths.
    pub fn progress(&self) -> (r: u32)
        requires
            self.wf(),
        ensures
            r == self.progress_of(),
            r <= 1_000_000,
    {
        match self.expected {
            Some(n) => {
                if n > 0 {
                    let num: u128 = self.received as u128 * 1_000_000;
                    let p: u128 = num / (n as u128);
                    proof {
                        let r = self.received as int;
                        let m = n as int;
                        assert((r * 1_000_000) / m <= 1_000_000) by (nonlinear_arith)
                            requires
                                r <= m,
                                m > 0,
                                r >= 0,
                        ;
                    }
                    p as u32
                } else {
                    0
                }
            },
            None => 0,
        }
    }

    /// How many bytes the next download step may read: one buffer's worth,
    /// but no more than the response has left.
    pub fn download_budget(&self) -> (r: usize)
        requires
            self.wf(),
        ensures
            r <= self.buffer_size,
            self.expected matches Some(n) ==> self.received + r <= n,
            r as int == self.download_budget_spec(),
    {
        let cap: u64 = match self.expected {
            Some(n) => n,
            None => u64::MAX,
        };
        let left: u64 = cap - self.received;
        if (self.buffer_size as u64) <= left {
            self.buffer_size
        } else {
            left as usize
        }
    }

    /// How many bytes the next upload step may send: one buffer's worth,
    /// but no more than the declared length has left.
    pub fn upload_budget(&self) -> (r: usize)
        requires
            self.wf(),
        ensures
            r as int == self.upload_budget_spec(),
    {
        let left: u64 = self.upload_length - self.sent;
        if (self.buffer_size as u64) <= left {
            self.buffer_size
        } else {
            left as usize
        }
    }
}


/// For a fixed expected length, more bytes received is never less progress.
pub proof fn lemma_progress_monotone(r1: u64, r2: u64, expected: Option<u64>)
    requires
        r1 <= r2,
    ensures
        progress(r1, expected) <= progress(r2, expected),
{
    if let Some(n) = expected {
        if n > 0 {
            let a = r1 as int;
            let b = r2 as int;
            let m = n as int;
            assert((a * 1_000_000) / m <= (b * 1_000_000) / m) by (nonlinear_arith)
                requires
                    0 <= a <= b,
                    m > 0,
            ;
        }
    }
}

/// Records `e` as the reason the task failed and ends it.
pub fn error(task: &mut Task, e: HttpError)
    requires
        old(task).wf(),
    ensures
        final(task).wf(),
        final(task).status == TaskStatus::Errored,
        final(task).error@ == error_text(e),
        final(task).progress_of() == old(task).progress_of(),
        final(task).sent == old(task).sent,
        final(task).received == old(task).received,
        final(task).expected == old(task).expected,
        final(task).response == old(task).response,
        final(task).same_setup(old(task)),
{
    task.error = e.message();
    task.status = TaskStatus::Errored;
}

/// The first step of a task: with the host's check of its settings passed
/// the task goes on to negotiate, else it fails with the check's error.
pub fn initialize(task: &mut Task, checked: Result<(), HttpError>)
    requires
        old(task).wf(),
        old(task).status == TaskStatus::Init,
    ensures
        final(task).wf(),
        final(task).same_setup(old(task)),
        final(task).progress_of() == old(task).progress_of(),
        final(task).sent == old(task).sent,
        final(task).received == old(task).received,
        final(task).expected == old(task).expected,
        match checked {
            Ok(_) => final(task).status == TaskStatus::Negotiating,
            Err(e) => final(task).status == TaskStatus::Errored && final(task).error@ == error_text(e),
        },
{
    match checked {
        Ok(_) => {
            task.status = TaskStatus::Negotiating;
        },
        Err(e) => error(task, e),
    }
}

/// The status once the request is out: the response body is read, unless
/// the method's response has none or its declared length is 0, and then
/// the task is complete.
pub open spec fn after_request(m: Method, expected: Option<u64>) -> TaskStatus {
    if m == Method::Head || expected == Some(0u64) {
        TaskStatus::Completed
    } else {
        TaskStatus::Downloading
    }
}

/// The status after a successful negotiation: the body is sent first when
/// there is one.
pub open spec fn after_negotiation(has_body: bool, m: Method, expected: Option<u64>) -> TaskStatus {
    if has_body {
        TaskStatus::Uploading
    } else {
        after_request(m, expected)
    }
}

/// The status once the request is out.
fn next_after_request(m: Method, expected: Option<u64>) -> (r: TaskStatus)
    ensures
        r == after_request(m, expected),
{
    let empty = match expected {
        Some(n) => n == 0,
        None => false,
    };
    if !m.expects_body() || empty {
        TaskStatus::Completed
    } else {
        TaskStatus::Downloading
    }
}

/// Ends a negotiation with the response head that was read (or the error
/// that stopped it): on a 200 the task keeps the head and the download
/// length and moves on; otherwise it fails with the reason.
pub fn creating_connection(task: &mut Task, head: Result<ResponseMeta, HttpError>)
    requires
        old(task).wf(),
        old(task).status == TaskStatus::Negotiating,
    ensures
        final(task).wf(),
        final(task).same_setup(old(task)),
        final(task).progress_of() >= old(task).progress_of(),
        final(task).sent == old(task).sent,
        final(task).received == old(task).received,
        final(task).status == TaskStatus::Errored ==> final(task).expected == old(task).expected
            && final(task).response == old(task).response,
        match head {
            Err(e) => final(task).status == TaskStatus::Errored && final(task).error@ == error_text(e),
            Ok(m) => if m.status != 200 {
                final(task).status == TaskStatus::Errored && final(task).error@ == error_text(
                    HttpError::UnexpectedStatus(m.status, m.reason),
                )
            } else {
                match declared_length(m@.headers) {
                    Err(e) => final(task).status == TaskStatus::Errored && final(task).error@
                        == error_text(e),
                    Ok(len) => final(task).status == after_negotiation(
                        old(task).has_body,
                        old(task).method,
                        len,
                    ) && final(task).expected == len && final(task).response == Some(m),
                }
            },
        },
{
    let m = match head {
        Err(e) => {
            error(task, e);
            return;
        },
        Ok(m) => m,
    };
    if m.status != 200 {
        let e = HttpError::UnexpectedStatus(m.status, m.reason);
        error(task, e);
        return;
    }
    assert(pairs_view(m.headers@) == m@.headers);
    match content_length(&m.headers) {
        Err(e) => {
            error(task, e);
        },
        Ok(len) => {
            task.expected = len;
            task.response = Some(m);
            task.status = if task.has_body {
                TaskStatus::Uploading
            } else {
                next_after_request(task.method, len)
            };
        },
    }
}

/// One download step, given what the read of `download_budget()` bytes
/// gave. No data yet changes nothing; a failed read fails the task; bytes
/// are counted, and the download completes when the expected length is
/// reached or the peer closes. With an expected length of 0 a step does
/// nothing.
pub fn downloading(task: &mut Task, read: ReadOutcome)
    requires
        old(task).wf(),
        old(task).status == TaskStatus::Downloading,
        read matches ReadOutcome::Data(k) ==> k <= old(task).download_budget_spec(),
    ensures
        final(task).wf(),
        final(task).same_setup(old(task)),
        final(task).response == old(task).response,
        final(task).progress_of() >= old(task).progress_of(),
        final(task).received >= old(task).received,
        final(task).expected == old(task).expected,
        final(task).sent == old(task).sent,
        old(task).expected == Some(0u64) ==> *final(task) == *old(task),
        old(task).expected != Some(0u64) ==> match read {
            ReadOutcome::WouldBlock => *final(task) == *old(task),
            ReadOutcome::Failed => final(task).status == TaskStatus::Errored && final(task).error@
                == error_text(HttpError::ConnectionClosedUnexpectedly) && final(task).received
                == old(task).received,
            ReadOutcome::Data(k) => final(task).received == old(task).received + k && (
            final(task).status == TaskStatus::Completed <==> (k == 0 || Some(final(task).received)
                == old(task).expected)) && (final(task).status != TaskStatus::Completed
                ==> final(task).status == TaskStatus::Downloading),
        },
{
    if let Some(n) = task.expected {
        if n == 0 {
            return;
        }
    }
    match read {
        ReadOutcome::WouldBlock => {},
        ReadOutcome::Failed => {
            error(task, HttpError::ConnectionClosedUnexpectedly);
        },
        ReadOutcome::Data(k) => {
            let ghost before = task.received;
            task.received = task.received + k as u64;
            proof {
                lemma_progress_monotone(before, task.received, task.expected);
            }
            let reached = match task.expected {
                Some(n) => task.received == n,
                None => false,
            };
            if k == 0 || reached {
                task.status = TaskStatus::Completed;
            }
        },
    }
}

/// One upload step, given how many body bytes were read (at most
/// `upload_budget()`) and whether a transport was there to take them.
/// Without one the task goes back to negotiate. Otherwise the bytes are
/// counted as sent, and the upload ends when the body is exhausted or the
/// declared length has been sent; the task then moves on to the download,
/// or completes when there is nothing to download.
pub fn uploading(task: &mut Task, read: usize, connected: bool)
    requires
        old(task).wf(),
        old(task).status == TaskStatus::Uploading,
        read <= old(task).upload_budget_spec(),
    ensures
        final(task).wf(),
        final(task).same_setup(old(task)),
        final(task).response == old(task).response,
        final(task).progress_of() == old(task).progress_of(),
        final(task).received == old(task).received,
        final(task).expected == old(task).expected,
        final(task).sent <= final(task).upload_length,
        !connected ==> final(task).status == TaskStatus::Negotiating && final(task).sent == old(
            task,
        ).sent,
        connected ==> final(task).sent == old(task).sent + read && (final(task).status
            != TaskStatus::Uploading <==> (read == 0 || final(task).sent
            == final(task).upload_length)) && (final(task).status != TaskStatus::Uploading
            ==> final(task).status == after_request(old(task).method, old(task).expected)),
{
    if !connected {
        task.status = TaskStatus::Negotiating;
        return;
    }
    task.sent = task.sent + read as u64;
    if read == 0 || task.sent == task.upload_length {
        task.status = next_after_request(task.method, task.expected);
    }
}

impl Task {
    pub open spec fn download_budget_spec(&self) -> int {
        min(
            self.buffer_size as int,
            match self.expected {
                Some(n) => n - self.received,
                None => u64::MAX - self.received,
            },
        )
    }

    pub open spec fn upload_budget_spec(&self) -> int {
        min(self.buffer_size as int, self.upload_length - self.sent)
    }
}

} // verus!
