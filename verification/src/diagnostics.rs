use vstd::prelude::*;
use crate::event_log::WindowsApplicationFailure;
use crate::text::{concat, owned};

verus! {

/// Wait, in milliseconds, before the single retry of a lookup that found nothing.
pub const RETRY_DELAY_MS: u64 = 10_000;
/// Time, in milliseconds, after which a running lookup counts as slow.
pub const WORKER_SLOW_AFTER_MS: u64 = 2_000;
/// Poll interval, in milliseconds, while a lookup runs.
pub const WORKER_POLL_MS: u64 = 100;
/// Poll interval, in milliseconds, once a lookup is slow.
pub const SLOW_WORKER_POLL_MS: u64 = 2_000;

/// What the crash lookup shows.
#[derive(Debug, Clone, PartialEq, Eq)]
pub enum WindowsEventLogState {
    Idle,
    Loading { last_complete: Option<WindowsApplicationFailure> },
    Ready { latest: Option<WindowsApplicationFailure> },
    Incomplete { last_complete: Option<WindowsApplicationFailure>, reason: String },
}

/// The last complete lookup result a state still shows.
pub open spec fn latest_complete_of(s: WindowsEventLogState) -> Option<WindowsApplicationFailure> {
    match s {
        WindowsEventLogState::Ready { latest } => latest,
        WindowsEventLogState::Loading { last_complete } => last_complete,
        WindowsEventLogState::Incomplete { last_complete, .. } => last_complete,
        WindowsEventLogState::Idle => None,
    }
}

impl WindowsEventLogState {
    /// The last complete lookup result this state still shows.
    pub fn latest_complete(&self) -> (r: Option<&WindowsApplicationFailure>)
        ensures
            match latest_complete_of(*self) {
                Some(f) => r == Some(&f),
                None => r is None,
            },
    {
        match self {
            WindowsEventLogState::Ready { latest } => latest.as_ref(),
            WindowsEventLogState::Loading { last_complete } => last_complete.as_ref(),
            WindowsEventLogState::Incomplete { last_complete, .. } => last_complete.as_ref(),
            WindowsEventLogState::Idle => None,
        }
    }
}

/// What polling the lookup changed.
#[derive(Debug, PartialEq, Eq)]
pub enum WindowsEventLogPoll {
    Unchanged,
    Completed(Result<Option<WindowsApplicationFailure>, String>),
    MarkedIncomplete,
}

/// What the lookup worker's channel gave when polled.
#[derive(Debug)]
pub enum WorkerReport {
    /// No worker is running.
    NoWorker,
    /// The worker has not answered yet.
    Pending,
    /// The worker answered for a generation.
    Finished { generation: u64, result: Result<Option<WindowsApplicationFailure>, String> },
    /// The worker went away without answering.
    Disconnected,
}

/// The abstract state of the lookup manager.
pub struct ManagerView {
    pub enabled: bool,
    pub initial_scan_started: bool,
    pub retry_used: bool,
    pub retry_due_ms: Option<u64>,
    pub generation: u64,
    pub state: WindowsEventLogState,
    pub worker_started_ms: Option<u64>,
    pub spawn_request: Option<u64>,
}

/// A one-shot, explicitly enabled reader of the Windows crash log. It never starts work when
/// it is made, and has no refresh on focus: a lookup starts only through
/// `start_initial_scan`, and at most one retry follows a lookup that found nothing. The
/// worker itself runs outside: the manager asks for one through `spawn_request` and is told
/// what it gave through `poll`; times are milliseconds of a monotonic clock.
pub struct WindowsEventLogManager {
    enabled: bool,
    initial_scan_started: bool,
    retry_used: bool,
    retry_due_ms: Option<u64>,
    generation: u64,
    state: WindowsEventLogState,
    worker_started_ms: Option<u64>,
    spawn_request: Option<u64>,
}

impl View for WindowsEventLogManager {
    type V = ManagerView;

    closed spec fn view(&self) -> ManagerView {
        ManagerView {
            enabled: self.enabled,
            initial_scan_started: self.initial_scan_started,
            retry_used: self.retry_used,
            retry_due_ms: self.retry_due_ms,
            generation: self.generation,
            state: self.state,
            worker_started_ms: self.worker_started_ms,
            spawn_request: self.spawn_request,
        }
    }
}

/// The worker's start time, when one runs.
pub open spec fn worker_active(m: ManagerView) -> bool {
    m.worker_started_ms is Some
}

/// `m` with a worker started at `now`: the state shows loading with the last complete result,
/// and a worker is asked for the current generation.
pub open spec fn with_worker_started(m: ManagerView, now: u64) -> ManagerView {
    ManagerView {
        state: WindowsEventLogState::Loading { last_complete: latest_complete_of(m.state) },
        worker_started_ms: Some(now),
        spawn_request: Some(m.generation),
        ..m
    }
}

/// Starting a worker: only when enabled and none runs.
pub open spec fn start_worker_spec(m: ManagerView, now: u64) -> (ManagerView, bool) {
    if !m.enabled || worker_active(m) {
        (m, false)
    } else {
        (with_worker_started(m, now), true)
    }
}

/// The retry starts when enabled, idle and due.
pub open spec fn retry_spec(m: ManagerView, now: u64) -> ManagerView {
    if m.enabled && !worker_active(m) && (m.retry_due_ms matches Some(due) && due <= now) {
        start_worker_spec(ManagerView { retry_due_ms: None, ..m }, now).0
    } else {
        m
    }
}

/// `now + RETRY_DELAY_MS`, held at the clock's largest value.
pub open spec fn retry_time(now: u64) -> u64 {
    if now + RETRY_DELAY_MS <= u64::MAX {
        (now + RETRY_DELAY_MS) as u64
    } else {
        u64::MAX
    }
}

/// Recording a finished lookup: a result replaces what is shown, and the first empty result
/// schedules the single retry; an error keeps the last complete result and gives the reason.
pub open spec fn apply_result_spec(
    m: ManagerView,
    result: Result<Option<WindowsApplicationFailure>, String>,
    now: u64,
) -> ManagerView {
    match result {
        Ok(latest) => {
            let ready = ManagerView { state: WindowsEventLogState::Ready { latest }, ..m };
            if latest is None && !m.retry_used {
                ManagerView { retry_used: true, retry_due_ms: Some(retry_time(now)), ..ready }
            } else {
                ready
            }
        },
        Err(reason) => ManagerView {
            state: WindowsEventLogState::Incomplete { last_complete: latest_complete_of(m.state), reason },
            ..m
        },
    }
}

/// Reason shown when the worker went away.
pub open spec fn worker_stopped_reason() -> Seq<char> {
    "the Windows Event Log worker stopped unexpectedly"@
}

/// Reason shown while the worker is slow.
pub open spec fn worker_slow_reason() -> Seq<char> {
    "the Windows Event Log lookup is taking longer than expected"@
}

/// Whether `now` is at least `WORKER_SLOW_AFTER_MS` after `started`.
pub open spec fn is_slow(started: u64, now: u64) -> bool {
    now >= started && now - started >= WORKER_SLOW_AFTER_MS
}

fn clone_failure(f: &WindowsApplicationFailure) -> (r: WindowsApplicationFailure)
    ensures
        r == *f,
{
    WindowsApplicationFailure {
        event_record_id: f.event_record_id,
        timestamp_utc: f.timestamp_utc.clone(),
        exception_code: f.exception_code,
        faulting_module: f.faulting_module.clone(),
    }
}

fn clone_latest(s: &WindowsEventLogState) -> (r: Option<WindowsApplicationFailure>)
    ensures
        r == latest_complete_of(*s),
{
    match s.latest_complete() {
        Some(f) => Some(clone_failure(f)),
        None => None,
    }
}

fn clone_result(r: &Result<Option<WindowsApplicationFailure>, String>) -> (c: Result<
    Option<WindowsApplicationFailure>,
    String,
>)
    ensures
        c == *r,
{
    match r {
        Ok(Some(f)) => Ok(Some(clone_failure(f))),
        Ok(None) => Ok(None),
        Err(e) => Err(e.clone()),
    }
}

impl WindowsEventLogManager {
    /// A manager that is enabled, shows nothing and has started nothing.
    pub fn new_idle() -> (r: Self)
        ensures
            r@.enabled,
            !r@.initial_scan_started,
            !r@.retry_used,
            r@.retry_due_ms is None,
            r@.generation == 0,
            r@.state == WindowsEventLogState::Idle,
            r@.worker_started_ms is None,
            r@.spawn_request is None,
    {
        WindowsEventLogManager {
            enabled: true,
            initial_scan_started: false,
            retry_used: false,
            retry_due_ms: None,
            generation: 0,
            state: WindowsEventLogState::Idle,
            worker_started_ms: None,
            spawn_request: None,
        }
    }

    /// What the lookup shows.
    pub fn state(&self) -> (r: &WindowsEventLogState)
        ensures
            *r == self@.state,
    {
        &self.state
    }

    /// Whether a lookup worker runs.
    pub fn worker_is_active(&self) -> (r: bool)
        ensures
            r == worker_active(self@),
    {
        self.worker_started_ms.is_some()
    }

    /// When the retry is due, if one is scheduled.
    pub fn retry_due(&self) -> (r: Option<u64>)
        ensures
            r == self@.retry_due_ms,
    {
        self.retry_due_ms
    }

    /// The generation a worker must be started for, if the manager asked for one; the
    /// request is taken.
    pub fn take_spawn_request(&mut self) -> (r: Option<u64>)
        ensures
            r == old(self)@.spawn_request,
            final(self)@ == (ManagerView { spawn_request: None, ..old(self)@ }),
    {
        let r = self.spawn_request;
        self.spawn_request = None;
        r
    }

    fn start_worker(&mut self, now_ms: u64) -> (r: bool)
        ensures
            (final(self)@, r) == start_worker_spec(old(self)@, now_ms),
    {
        if !self.enabled || self.worker_started_ms.is_some() {
            return false;
        }
        let last_complete = clone_latest(&self.state);
        self.state = WindowsEventLogState::Loading { last_complete };
        self.worker_started_ms = Some(now_ms);
        self.spawn_request = Some(self.generation);
        true
    }

    /// Starts the first lookup, once: only while enabled and only the first time. Gives
    /// whether a worker was asked for.
    pub fn start_initial_scan(&mut self, now_ms: u64) -> (r: bool)
        ensures
            !old(self)@.enabled || old(self)@.initial_scan_started ==> !r && final(self)@ == old(self)@,
            old(self)@.enabled && !old(self)@.initial_scan_started ==> (final(self)@, r)
                == start_worker_spec(ManagerView { initial_scan_started: true, ..old(self)@ }, now_ms),
    {
        if !self.enabled || self.initial_scan_started {
            return false;
        }
        self.initial_scan_started = true;
        self.start_worker(now_ms)
    }

    /// The worker could not be started: it counts as not running and the state says why.
    pub fn worker_spawn_failed(&mut self, error: &str) -> (r: ())
        ensures
            final(self)@.worker_started_ms is None,
            final(self)@.spawn_request is None,
            final(self)@.state matches WindowsEventLogState::Incomplete { last_complete, reason }
                && last_complete == latest_complete_of(old(self)@.state)
                && reason@ == "failed to start the Windows Event Log worker: "@ + error@,
            final(self)@.enabled == old(self)@.enabled,
            final(self)@.generation == old(self)@.generation,
            final(self)@.retry_due_ms == old(self)@.retry_due_ms,
            final(self)@.retry_used == old(self)@.retry_used,
            final(self)@.initial_scan_started == old(self)@.initial_scan_started,
    {
        self.worker_started_ms = None;
        self.spawn_request = None;
        let last_complete = clone_latest(&self.state);
        let reason = concat("failed to start the Windows Event Log worker: ", error);
        self.state = WindowsEventLogState::Incomplete { last_complete, reason };
    }

    /// Turns the lookup off: nothing is shown, no retry is pending, and the answer of a worker
    /// still running will be ignored.
    pub fn disable(&mut self)
        ensures
            final(self)@ == (ManagerView {
                enabled: false,
                generation: old(self)@.generation.wrapping_add(1),
                retry_due_ms: None,
                state: WindowsEventLogState::Idle,
                ..old(self)@
            }),
    {
        self.enabled = false;
        self.generation = self.generation.wrapping_add(1);
        self.retry_due_ms = None;
        self.state = WindowsEventLogState::Idle;
    }

    fn start_retry_if_due(&mut self, now_ms: u64)
        ensures
            final(self)@ == retry_spec(old(self)@, now_ms),
    {
        let due = match self.retry_due_ms {
            Some(d) => d <= now_ms,
            None => false,
        };
        if self.enabled && self.worker_started_ms.is_none() && due {
            self.retry_due_ms = None;
            let _ = self.start_worker(now_ms);
        }
    }

    fn apply_completed_result(&mut self, result: &Result<Option<WindowsApplicationFailure>, String>, now_ms: u64)
        ensures
            final(self)@ == apply_result_spec(old(self)@, *result, now_ms),
    {
        match result {
            Ok(latest) => {
                let latest = match latest {
                    Some(f) => Some(clone_failure(f)),
                    None => None,
                };
                let empty = latest.is_none();
                self.state = WindowsEventLogState::Ready { latest };
                if empty && !self.retry_used {
                    self.retry_used = true;
                    self.retry_due_ms = Some(now_ms.saturating_add(RETRY_DELAY_MS));
                }
            },
            Err(reason) => {
                let last_complete = clone_latest(&self.state);
                self.state = WindowsEventLogState::Incomplete { last_complete, reason: reason.clone() };
            },
        }
    }

    /// Takes what the worker's channel gave at `now_ms`: with no worker a due retry starts; an
    /// answer of the current generation while enabled is recorded and given back (a stale or
    /// disabled answer changes only the worker); a vanished worker marks the lookup
    /// incomplete; a worker slower than `WORKER_SLOW_AFTER_MS` marks it incomplete once.
    pub fn poll(&mut self, report: WorkerReport, now_ms: u64) -> (r: WindowsEventLogPoll)
        requires
            report is NoWorker <==> !worker_active(old(self)@),
        ensures
            match report {
                WorkerReport::NoWorker => r == WindowsEventLogPoll::Unchanged && final(self)@ == retry_spec(
                    old(self)@,
                    now_ms,
                ),
                WorkerReport::Finished { generation, result } => {
                    let idle = ManagerView { worker_started_ms: None, ..old(self)@ };
                    if !old(self)@.enabled || generation != old(self)@.generation {
                        r == WindowsEventLogPoll::Unchanged && final(self)@ == idle
                    } else {
                        r == WindowsEventLogPoll::Completed(result) && final(self)@ == retry_spec(
                            apply_result_spec(idle, result, now_ms),
                            now_ms,
                        )
                    }
                },
                WorkerReport::Disconnected => {
                    &&& final(self)@.worker_started_ms is None
                    &&& final(self)@.enabled == old(self)@.enabled
                    &&& final(self)@.generation == old(self)@.generation
                    &&& final(self)@.retry_due_ms == old(self)@.retry_due_ms
                    &&& if old(self)@.enabled {
                        &&& r == WindowsEventLogPoll::MarkedIncomplete
                        &&& final(self)@.state matches WindowsEventLogState::Incomplete { last_complete, reason }
                        &&& last_complete == latest_complete_of(old(self)@.state)
                        &&& reason@ == worker_stopped_reason()
                    } else {
                        r == WindowsEventLogPoll::Unchanged && final(self)@.state == old(self)@.state
                    }
                },
                WorkerReport::Pending => if is_slow(old(self)@.worker_started_ms.unwrap(), now_ms)
                    && !(old(self)@.state is Incomplete) {
                    &&& r == WindowsEventLogPoll::MarkedIncomplete
                    &&& final(self)@.state matches WindowsEventLogState::Incomplete { last_complete, reason }
                    &&& last_complete == latest_complete_of(old(self)@.state)
                    &&& reason@ == worker_slow_reason()
                    &&& final(self)@ == (ManagerView { state: final(self)@.state, ..old(self)@ })
                } else {
                    r == WindowsEventLogPoll::Unchanged && final(self)@ == old(self)@
                },
            },
    {
        match report {
            WorkerReport::NoWorker => {
                self.start_retry_if_due(now_ms);
                WindowsEventLogPoll::Unchanged
            },
            WorkerReport::Finished { generation, result } => {
                self.worker_started_ms = None;
                if !self.enabled || generation != self.generation {
                    return WindowsEventLogPoll::Unchanged;
                }
                self.apply_completed_result(&result, now_ms);
                self.start_retry_if_due(now_ms);
                WindowsEventLogPoll::Completed(result)
            },
            WorkerReport::Disconnected => {
                self.worker_started_ms = None;
                if self.enabled {
                    let last_complete = clone_latest(&self.state);
                    self.state = WindowsEventLogState::Incomplete {
                        last_complete,
                        reason: owned("the Windows Event Log worker stopped unexpectedly"),
                    };
                    WindowsEventLogPoll::MarkedIncomplete
                } else {
                    WindowsEventLogPoll::Unchanged
                }
            },
            WorkerReport::Pending => {
                let started = match self.worker_started_ms {
                    Some(s) => s,
                    None => now_ms,
                };
                let slow = now_ms >= started && now_ms - started >= WORKER_SLOW_AFTER_MS;
                let incomplete = match &self.state {
                    WindowsEventLogState::Incomplete { .. } => true,
                    _ => false,
                };
                if slow && !incomplete {
                    let last_complete = clone_latest(&self.state);
                    self.state = WindowsEventLogState::Incomplete {
                        last_complete,
                        reason: owned("the Windows Event Log lookup is taking longer than expected"),
                    };
                    return WindowsEventLogPoll::MarkedIncomplete;
                }
                WindowsEventLogPoll::Unchanged
            },
        }
    }

    /// How long to wait before polling again: often while a worker runs, less often once it
    /// is slow, until the retry is due when one is scheduled, and not at all otherwise.
    pub fn worker_poll_interval(&self, now_ms: u64) -> (r: Option<u64>)
        ensures
            match self@.worker_started_ms {
                Some(started) => r == Some(
                    if is_slow(started, now_ms) {
                        SLOW_WORKER_POLL_MS
                    } else {
                        WORKER_POLL_MS
                    },
                ),
                None => match self@.retry_due_ms {
                    Some(due) => r == Some(if due >= now_ms { (due - now_ms) as u64 } else { 0 }),
                    None => r is None,
                },
            },
    {
        match self.worker_started_ms {
            Some(started) => {
                let slow = now_ms >= started && now_ms - started >= WORKER_SLOW_AFTER_MS;
                Some(if slow { SLOW_WORKER_POLL_MS } else { WORKER_POLL_MS })
            },
            None => match self.retry_due_ms {
                Some(due) => Some(due.saturating_sub(now_ms)),
                None => None,
            },
        }
    }
}

/// At most one retry: once the retry was scheduled, a later empty result schedules none.
pub proof fn lemma_single_retry(m: ManagerView, now: u64)
    requires
        m.retry_used,
    ensures
        apply_result_spec(m, Ok(None), now).retry_due_ms == m.retry_due_ms,
        apply_result_spec(m, Ok(None), now).retry_used,
{
}

/// Errors never schedule a retry.
pub proof fn lemma_errors_do_not_retry(m: ManagerView, reason: String, now: u64)
    ensures
        apply_result_spec(m, Err(reason), now).retry_due_ms == m.retry_due_ms,
        apply_result_spec(m, Err(reason), now).retry_used == m.retry_used,
{
}

/// After `disable`, nothing is shown and no worker starts, whatever the clock says.
pub proof fn lemma_disabled_starts_nothing(m: ManagerView, now: u64)
    requires
        !m.enabled,
    ensures
        retry_spec(m, now) == m,
        start_worker_spec(m, now) == (m, false),
{
}

} // verus!

verus! {

/// A scheduled retry belongs to the one retry a manager has.
pub open spec fn retry_consistent(m: ManagerView) -> bool {
    m.retry_due_ms is Some ==> m.retry_used
}

/// How many lookups a manager may still start: the first one until it started, and the single
/// retry until it is used, or while it is scheduled and not yet started.
pub open spec fn lookups_left(m: ManagerView) -> nat {
    (if !m.initial_scan_started { 1nat } else { 0nat }) + (if !m.retry_used || m.retry_due_ms is Some {
        1nat
    } else {
        0nat
    })
}

/// Whether the retry starts at `now`.
pub open spec fn retry_starts(m: ManagerView, now: u64) -> bool {
    m.enabled && !worker_active(m) && (m.retry_due_ms matches Some(due) && due <= now)
}

/// A manager runs the lookup at most twice in its life: a new manager may start two lookups
/// (`lookups_left` is 2), starting the first lookup or the retry spends one, and recording a
/// result, disabling, or any other step never adds one.
pub proof fn lemma_lookup_runs_at_most_twice(m: ManagerView, now: u64, result: Result<Option<WindowsApplicationFailure>, String>)
    requires
        retry_consistent(m),
    ensures
        lookups_left(ManagerView {
            enabled: true,
            initial_scan_started: false,
            retry_used: false,
            retry_due_ms: None,
            ..m
        }) == 2,
        m.enabled && !m.initial_scan_started ==> ({
            let (t, started) = start_worker_spec(ManagerView { initial_scan_started: true, ..m }, now);
            retry_consistent(t) && lookups_left(t) + (if started { 1nat } else { 0nat }) <= lookups_left(m)
        }),
        retry_consistent(retry_spec(m, now)),
        lookups_left(retry_spec(m, now)) + (if retry_starts(m, now) { 1nat } else { 0nat }) <= lookups_left(m),
        !retry_starts(m, now) ==> retry_spec(m, now) == m,
        retry_consistent(apply_result_spec(m, result, now)),
        lookups_left(apply_result_spec(m, result, now)) <= lookups_left(m),
        ({
            let d = ManagerView {
                enabled: false,
                generation: m.generation.wrapping_add(1),
                retry_due_ms: None,
                state: WindowsEventLogState::Idle,
                ..m
            };
            retry_consistent(d) && lookups_left(d) <= lookups_left(m)
        }),
{
}

} // verus!
