use vstd::prelude::*;

verus! {

/// How many events the queue between the monitor and the GUI holds.
pub const MONITOR_EVENT_QUEUE_CAPACITY: usize = 128;

/// A notification from the process monitor to the GUI.
#[derive(Debug, Clone, PartialEq, Eq)]
pub enum DiagnosticEvent {
    RuntimeStateChanged,
    Monitor(String),
    Warning(String),
}

/// What one bounded drain of the queue leaves to do.
#[derive(Debug, Clone, Copy, Default, PartialEq, Eq, Structural)]
pub struct MonitorDrainStatus {
    pub needs_repaint: bool,
    pub has_more_work: bool,
    pub dropped_monitor_messages: usize,
    pub dropped_warnings: usize,
}

/// The bounded queue between monitor tasks and the GUI: sending never waits. A state-change
/// notice is coalesced into one pending repaint; text events that find the queue full are
/// dropped and counted, so the GUI can report the loss instead of keeping a backlog.
pub struct MonitorEventQueue {
    events: Vec<DiagnosticEvent>,
    repaint_pending: bool,
    dropped_monitor_messages: usize,
    dropped_warnings: usize,
}

/// The abstract state of the queue.
pub struct MonitorQueueView {
    pub events: Seq<DiagnosticEvent>,
    pub repaint_pending: bool,
    pub dropped_monitor_messages: nat,
    pub dropped_warnings: nat,
}

impl View for MonitorEventQueue {
    type V = MonitorQueueView;

    closed spec fn view(&self) -> MonitorQueueView {
        MonitorQueueView {
            events: self.events@,
            repaint_pending: self.repaint_pending,
            dropped_monitor_messages: self.dropped_monitor_messages as nat,
            dropped_warnings: self.dropped_warnings as nat,
        }
    }
}

/// Adding one to a drop counter, held at the largest count.
pub open spec fn counted(n: nat) -> nat {
    if n < usize::MAX {
        n + 1
    } else {
        n
    }
}

/// The queue after sending `event`, and whether the GUI must be woken.
pub open spec fn send_spec(q: MonitorQueueView, event: DiagnosticEvent) -> (MonitorQueueView, bool) {
    if event is RuntimeStateChanged && q.repaint_pending {
        (q, true)
    } else {
        let q1 = if event is RuntimeStateChanged {
            MonitorQueueView { repaint_pending: true, ..q }
        } else {
            q
        };
        if q1.events.len() < MONITOR_EVENT_QUEUE_CAPACITY {
            (MonitorQueueView { events: q1.events.push(event), ..q1 }, true)
        } else {
            match event {
                DiagnosticEvent::RuntimeStateChanged => (q1, false),
                DiagnosticEvent::Monitor(_) => (
                    MonitorQueueView {
                        dropped_monitor_messages: counted(q1.dropped_monitor_messages),
                        repaint_pending: true,
                        ..q1
                    },
                    true,
                ),
                DiagnosticEvent::Warning(_) => (
                    MonitorQueueView {
                        dropped_warnings: counted(q1.dropped_warnings),
                        repaint_pending: true,
                        ..q1
                    },
                    true,
                ),
            }
        }
    }
}

impl MonitorEventQueue {
    /// The queue is never longer than its capacity.
    pub closed spec fn wf(&self) -> bool {
        self.events@.len() <= MONITOR_EVENT_QUEUE_CAPACITY
    }

    /// An empty queue with no pending repaint and nothing dropped.
    pub fn new() -> (r: Self)
        ensures
            r.wf(),
            r@.events.len() == 0,
            !r@.repaint_pending,
            r@.dropped_monitor_messages == 0,
            r@.dropped_warnings == 0,
    {
        MonitorEventQueue {
            events: Vec::new(),
            repaint_pending: false,
            dropped_monitor_messages: 0,
            dropped_warnings: 0,
        }
    }

    /// Enqueues an event without waiting (see `send_spec`): a state-change notice while one
    /// is pending only asks for a wake; a full queue drops text events, counts them and asks
    /// for a repaint, and drops a state-change notice (its pending repaint stays). Gives
    /// whether the GUI must be woken.
    pub fn try_send(&mut self, event: DiagnosticEvent) -> (wake: bool)
        requires
            old(self).wf(),
        ensures
            final(self).wf(),
            (final(self)@, wake) == send_spec(old(self)@, event),
    {
        let is_state_change = match &event {
            DiagnosticEvent::RuntimeStateChanged => true,
            _ => false,
        };
        if is_state_change && self.repaint_pending {
            return true;
        }
        if is_state_change {
            self.repaint_pending = true;
        }
        if self.events.len() < MONITOR_EVENT_QUEUE_CAPACITY {
            self.events.push(event);
            return true;
        }
        match event {
            DiagnosticEvent::RuntimeStateChanged => false,
            DiagnosticEvent::Monitor(_) => {
                if self.dropped_monitor_messages < usize::MAX {
                    self.dropped_monitor_messages = self.dropped_monitor_messages + 1;
                }
                self.repaint_pending = true;
                true
            },
            DiagnosticEvent::Warning(_) => {
                if self.dropped_warnings < usize::MAX {
                    self.dropped_warnings = self.dropped_warnings + 1;
                }
                self.repaint_pending = true;
                true
            },
        }
    }

    /// Takes the oldest event, if any; taking a state-change notice clears the pending repaint.
    pub fn try_recv(&mut self) -> (r: Option<DiagnosticEvent>)
        requires
            old(self).wf(),
        ensures
            final(self).wf(),
            old(self)@.events.len() == 0 ==> r is None && final(self)@ == old(self)@,
            old(self)@.events.len() > 0 ==> {
                &&& r == Some(old(self)@.events[0])
                &&& final(self)@.events == old(self)@.events.drop_first()
                &&& final(self)@.repaint_pending == (old(self)@.repaint_pending && !(old(self)@.events[0] is RuntimeStateChanged))
                &&& final(self)@.dropped_monitor_messages == old(self)@.dropped_monitor_messages
                &&& final(self)@.dropped_warnings == old(self)@.dropped_warnings
            },
    {
        if self.events.len() == 0 {
            return None;
        }
        let event = self.events.remove(0);
        assert(self.events@ =~= old(self)@.events.drop_first());
        if let DiagnosticEvent::RuntimeStateChanged = event {
            self.repaint_pending = false;
        }
        Some(event)
    }

    /// Ends one bounded drain: reports and resets the drop counts; a repaint is needed when
    /// one was pending or anything was dropped; work remains while events are queued.
    pub fn finish_drain(&mut self) -> (r: MonitorDrainStatus)
        requires
            old(self).wf(),
        ensures
            final(self).wf(),
            r.dropped_monitor_messages == old(self)@.dropped_monitor_messages,
            r.dropped_warnings == old(self)@.dropped_warnings,
            r.needs_repaint == (old(self)@.repaint_pending || old(self)@.dropped_monitor_messages > 0
                || old(self)@.dropped_warnings > 0),
            r.has_more_work == (old(self)@.events.len() > 0),
            final(self)@.events == old(self)@.events,
            !final(self)@.repaint_pending,
            final(self)@.dropped_monitor_messages == 0,
            final(self)@.dropped_warnings == 0,
    {
        let dropped_monitor_messages = self.dropped_monitor_messages;
        let dropped_warnings = self.dropped_warnings;
        self.dropped_monitor_messages = 0;
        self.dropped_warnings = 0;
        let needs_repaint = self.repaint_pending || dropped_monitor_messages > 0 || dropped_warnings > 0;
        self.repaint_pending = false;
        let has_more_work = self.events.len() > 0;
        MonitorDrainStatus { needs_repaint, has_more_work, dropped_monitor_messages, dropped_warnings }
    }
}

/// State-change notices coalesce: while a repaint is pending, another notice leaves the queue
/// as it is.
pub proof fn lemma_state_changes_coalesce(q: MonitorQueueView)
    requires
        q.repaint_pending,
    ensures
        send_spec(q, DiagnosticEvent::RuntimeStateChanged).0 == q,
{
}

/// Sending never lets the queue grow past its capacity, and every send that adds or drops
/// text wakes the GUI.
pub proof fn lemma_send_bounded(q: MonitorQueueView, event: DiagnosticEvent)
    requires
        q.events.len() <= MONITOR_EVENT_QUEUE_CAPACITY,
    ensures
        send_spec(q, event).0.events.len() <= MONITOR_EVENT_QUEUE_CAPACITY,
        !(event is RuntimeStateChanged) ==> send_spec(q, event).1,
        send_spec(q, event).0.events.len() <= q.events.len() + 1,
{
}

/// Nothing is lost silently: a text event is either queued or counted as dropped.
pub proof fn lemma_text_is_queued_or_counted(q: MonitorQueueView, event: DiagnosticEvent)
    requires
        q.events.len() <= MONITOR_EVENT_QUEUE_CAPACITY,
        q.dropped_monitor_messages < usize::MAX,
        q.dropped_warnings < usize::MAX,
        !(event is RuntimeStateChanged),
    ensures
        ({
            let q2 = send_spec(q, event).0;
            ||| q2.events == q.events.push(event)
            ||| (event is Monitor && q2.dropped_monitor_messages == q.dropped_monitor_messages + 1 && q2.repaint_pending)
            ||| (event is Warning && q2.dropped_warnings == q.dropped_warnings + 1 && q2.repaint_pending)
        }),
{
}

} // verus!
