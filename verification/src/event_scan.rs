use vstd::prelude::*;
use crate::event_log::{
    application_error_provider, failure_fields, failure_fields_spec, failure_from_fields, failure_from_fields_spec,
    hresult_from_win32_spec, is_query_complete_error, normalize_windows_path, normalized_windows_path,
    EventSystemValues, FailureFields, NamedEventData, WindowsApplicationFailure, APPLICATION_ERROR_EVENT_ID,
    ERROR_NO_MORE_ITEMS, ERROR_TIMEOUT, hresult_from_win32,
};
use crate::text::{str_chars, str_eq};

verus! {

/// Most records one scan looks at.
pub const MAX_SCANNED_EVENTS: usize = 64;
/// Most records one read of the log gives.
pub const EVENT_BATCH_SIZE: usize = 8;

/// The bookkeeping of a scan of the Application log: records looked at, how many of them
/// could not be rendered, how many were crash records, how many data renderings of those
/// succeeded and failed, and how many records of the last read are left.
#[derive(Clone, Copy, Debug, PartialEq, Eq, Structural)]
pub struct ScanCounters {
    pub scanned: usize,
    pub system_render_failures: usize,
    pub matching_candidates: usize,
    pub data_render_successes: usize,
    pub data_render_failures: usize,
    pub left_in_batch: usize,
}

/// The bounds the bookkeeping keeps.
pub open spec fn counters_wf(c: ScanCounters) -> bool {
    &&& c.scanned <= MAX_SCANNED_EVENTS
    &&& c.system_render_failures <= c.scanned
    &&& c.matching_candidates <= c.scanned
    &&& c.data_render_successes + c.data_render_failures <= 2 * c.scanned
    &&& c.left_in_batch <= EVENT_BATCH_SIZE
}

/// Where a scan stands.
#[derive(Debug)]
pub enum ScanStage {
    FetchingBatch,
    RenderingSystem,
    RenderingNamed(EventSystemValues),
    CheckingNamedPath(EventSystemValues, FailureFields),
    RenderingPositional(EventSystemValues),
    CheckingPositionalPath(EventSystemValues, FailureFields),
    Done,
}

/// The Event Log work a scan asks for next, or its result.
#[derive(Debug, PartialEq, Eq)]
pub enum ScanAction {
    /// Read the next records of the query (at most `max`).
    FetchBatch { max: usize },
    /// Render the system values of the next record of the last read.
    RenderSystem,
    /// Render the named crash data of the current record.
    RenderNamed,
    /// Render the positional data of the current record.
    RenderPositional,
    /// Resolve both paths on disk, where both can be.
    Canonicalize { event_path: String, executable_path: String },
    Finish(Result<Option<WindowsApplicationFailure>, String>),
}

/// What the Event Log work gave.
#[derive(Debug)]
pub enum ScanEvent {
    /// How many records a read gave, or the code of its failure.
    Batch(Result<usize, i32>),
    /// A record's system values (`None` where they do not have the expected shape), or a
    /// render failure.
    System(Result<Option<EventSystemValues>, String>),
    Named(Result<NamedEventData, String>),
    Positional(Result<Vec<Option<String>>, String>),
    /// The resolved paths, where both resolved.
    Canonical(Option<(String, String)>),
}

/// A scan of the Application log for the newest crash record of an executable.
#[derive(Debug)]
pub struct ApplicationErrorScan {
    pub executable_path: String,
    pub counters: ScanCounters,
    pub stage: ScanStage,
}

/// Whether `event` answers the work that `stage` waits for.
pub open spec fn scan_event_fits(stage: ScanStage, event: ScanEvent) -> bool {
    match stage {
        ScanStage::FetchingBatch => event is Batch,
        ScanStage::RenderingSystem => event is System,
        ScanStage::RenderingNamed(_) => event is Named,
        ScanStage::CheckingNamedPath(..) => event is Canonical,
        ScanStage::RenderingPositional(_) => event is Positional,
        ScanStage::CheckingPositionalPath(..) => event is Canonical,
        ScanStage::Done => false,
    }
}

/// What a scan that found no crash record ends with: an error when no record at all could be
/// rendered, or when crash records were found but none of their data could be rendered.
pub open spec fn scan_end_error(c: ScanCounters) -> Option<Seq<char>> {
    if c.scanned > 0 && c.system_render_failures == c.scanned {
        Some("could not render any Windows Event Log records"@)
    } else if c.matching_candidates > 0 && c.data_render_successes == 0 && c.data_render_failures > 0 {
        Some("could not render any matching Windows Event Log records"@)
    } else {
        None
    }
}

/// `action` ends a scan with bookkeeping `c` that found nothing.
pub open spec fn finishes_without_match(c: ScanCounters, action: ScanAction) -> bool {
    match scan_end_error(c) {
        Some(m) => action matches ScanAction::Finish(Err(e)) && e@ == m,
        None => action == ScanAction::Finish(Ok(None)),
    }
}

/// How a scan moves past a record: to the next record of the last read while records are
/// left there and the scan is under its limit, to a new read while it is under its limit,
/// and otherwise to its end.
pub open spec fn moves_on(c: ScanCounters, s: ApplicationErrorScan, action: ScanAction) -> bool {
    if c.left_in_batch > 0 && c.scanned < MAX_SCANNED_EVENTS {
        &&& s.counters == (ScanCounters { left_in_batch: (c.left_in_batch - 1) as usize, scanned: (c.scanned + 1) as usize, ..c })
        &&& s.stage is RenderingSystem
        &&& action is RenderSystem
    } else if c.scanned < MAX_SCANNED_EVENTS {
        &&& s.counters == (ScanCounters { left_in_batch: 0, ..c })
        &&& s.stage is FetchingBatch
        &&& action == (ScanAction::FetchBatch { max: EVENT_BATCH_SIZE })
    } else {
        &&& s.counters == c
        &&& s.stage is Done
        &&& finishes_without_match(c, action)
    }
}

/// `action` checks the path of a crash record's data `fields` of record `system`: it resolves
/// both paths on disk where both normalize; otherwise the record is judged at once.
pub open spec fn checks_path(
    s: ApplicationErrorScan,
    system: EventSystemValues,
    fields: FailureFields,
    action: ScanAction,
    positional: bool,
) -> bool {
    match (normalized_windows_path(fields.app_path@), normalized_windows_path(s.executable_path@)) {
        (Some(e), Some(x)) => {
            &&& (if positional {
                s.stage == ScanStage::CheckingPositionalPath(system, fields)
            } else {
                s.stage == ScanStage::CheckingNamedPath(system, fields)
            })
            &&& action matches ScanAction::Canonicalize { event_path, executable_path } && event_path@ == e
                && executable_path@ == x
        },
        _ => true,
    }
}

/// The bounds a scan keeps, with room left for the renderings of the record it works on.
pub open spec fn scan_wf(s: ApplicationErrorScan) -> bool {
    let c = s.counters;
    &&& counters_wf(c)
    &&& match s.stage {
        ScanStage::RenderingSystem => c.system_render_failures < c.scanned && c.matching_candidates < c.scanned
            && c.data_render_successes + c.data_render_failures + 2 <= 2 * c.scanned,
        ScanStage::RenderingNamed(_) => c.data_render_successes + c.data_render_failures + 2 <= 2 * c.scanned,
        ScanStage::CheckingNamedPath(..) => c.data_render_successes + c.data_render_failures + 1 <= 2 * c.scanned,
        ScanStage::RenderingPositional(_) => c.data_render_successes + c.data_render_failures + 1 <= 2 * c.scanned,
        _ => true,
    }
}

/// Named crash data with nothing in it.
pub open spec fn no_named_data() -> NamedEventData {
    NamedEventData {
        app_name: None,
        app_path: None,
        faulting_module_name: None,
        faulting_module_path: None,
        exception_code: None,
    }
}

/// What follows a record's named data that did not match: a version-zero record's positional
/// data is rendered next, any other record is passed.
pub open spec fn after_named(c: ScanCounters, system: EventSystemValues, s: ApplicationErrorScan, action: ScanAction) -> bool {
    if system.version != 0 {
        moves_on(c, s, action)
    } else {
        &&& s.counters == c
        &&& s.stage == ScanStage::RenderingPositional(system)
        &&& action is RenderPositional
    }
}

/// The judgment of a record's crash data `fields` (with the resolved paths `canonical`): a
/// crash of the executable ends the scan with it; otherwise the scan goes on.
pub open spec fn judged(
    c: ScanCounters,
    system: EventSystemValues,
    fields: FailureFields,
    canonical: Option<(Seq<char>, Seq<char>)>,
    executable_path: Seq<char>,
    s: ApplicationErrorScan,
    action: ScanAction,
    positional: bool,
) -> bool {
    match failure_from_fields_spec(system, fields, executable_path, canonical) {
        Some((code, module)) => {
            &&& s.counters == c
            &&& s.stage is Done
            &&& action matches ScanAction::Finish(Ok(Some(f))) && f.event_record_id == system.event_record_id
                && f.timestamp_utc == system.timestamp_utc && f.exception_code == code && f.faulting_module@ == module
        },
        None => if positional {
            moves_on(c, s, action)
        } else {
            after_named(c, system, s, action)
        },
    }
}

/// How a record's crash data is handled: judged at once where the paths do not both
/// normalize, otherwise after they are resolved.
pub open spec fn handles_fields(
    c: ScanCounters,
    system: EventSystemValues,
    fields: FailureFields,
    executable_path: Seq<char>,
    s: ApplicationErrorScan,
    action: ScanAction,
    positional: bool,
) -> bool {
    match (normalized_windows_path(fields.app_path@), normalized_windows_path(executable_path)) {
        (Some(_), Some(_)) => s.counters == c && checks_path(s, system, fields, action, positional),
        _ => judged(c, system, fields, None, executable_path, s, action, positional),
    }
}

impl ApplicationErrorScan {
    /// Starts a scan for crash records of `executable_path`: the first records are read.
    pub fn start(executable_path: String) -> (r: (ApplicationErrorScan, ScanAction))
        ensures
            r.0.executable_path == executable_path,
            r.0.counters == (ScanCounters {
                scanned: 0,
                system_render_failures: 0,
                matching_candidates: 0,
                data_render_successes: 0,
                data_render_failures: 0,
                left_in_batch: 0,
            }),
            r.0.stage is FetchingBatch,
            scan_wf(r.0),
            r.1 == (ScanAction::FetchBatch { max: EVENT_BATCH_SIZE }),
    {
        let counters = ScanCounters {
            scanned: 0,
            system_render_failures: 0,
            matching_candidates: 0,
            data_render_successes: 0,
            data_render_failures: 0,
            left_in_batch: 0,
        };
        (
            ApplicationErrorScan { executable_path, counters, stage: ScanStage::FetchingBatch },
            ScanAction::FetchBatch { max: EVENT_BATCH_SIZE },
        )
    }

    fn finish_without_match(&mut self) -> (r: ScanAction)
        ensures
            final(self).counters == old(self).counters,
            final(self).executable_path == old(self).executable_path,
            final(self).stage is Done,
            finishes_without_match(old(self).counters, r),
    {
        self.stage = ScanStage::Done;
        let c = self.counters;
        if c.scanned > 0 && c.system_render_failures == c.scanned {
            ScanAction::Finish(Err(crate::text::owned("could not render any Windows Event Log records")))
        } else if c.matching_candidates > 0 && c.data_render_successes == 0 && c.data_render_failures > 0 {
            ScanAction::Finish(Err(crate::text::owned("could not render any matching Windows Event Log records")))
        } else {
            ScanAction::Finish(Ok(None))
        }
    }

    fn move_on(&mut self) -> (r: ScanAction)
        requires
            counters_wf(old(self).counters),
        ensures
            final(self).executable_path == old(self).executable_path,
            scan_wf(*final(self)),
            moves_on(old(self).counters, *final(self), r),
    {
        let c = self.counters;
        if c.left_in_batch > 0 && c.scanned < MAX_SCANNED_EVENTS {
            self.counters = ScanCounters { left_in_batch: c.left_in_batch - 1, scanned: c.scanned + 1, ..c };
            self.stage = ScanStage::RenderingSystem;
            ScanAction::RenderSystem
        } else if c.scanned < MAX_SCANNED_EVENTS {
            self.counters = ScanCounters { left_in_batch: 0, ..c };
            self.stage = ScanStage::FetchingBatch;
            ScanAction::FetchBatch { max: EVENT_BATCH_SIZE }
        } else {
            self.finish_without_match()
        }
    }

    /// Judges a record's crash data at once (see `judged`).
    fn judge(
        &mut self,
        system: EventSystemValues,
        fields: FailureFields,
        canonical: Option<(String, String)>,
        positional: bool,
    ) -> (r: ScanAction)
        requires
            counters_wf(old(self).counters),
            positional || old(self).counters.data_render_successes + old(self).counters.data_render_failures + 1 <= 2
                * old(self).counters.scanned,
        ensures
            final(self).executable_path == old(self).executable_path,
            scan_wf(*final(self)),
            judged(
                old(self).counters,
                system,
                fields,
                match canonical {
                    Some((a, b)) => Some((a@, b@)),
                    None => None,
                },
                old(self).executable_path@,
                *final(self),
                r,
                positional,
            ),
    {
        let version = system.version;
        let keep = EventSystemValues {
            provider: system.provider.clone(),
            event_id: system.event_id,
            version: system.version,
            event_record_id: system.event_record_id,
            timestamp_utc: system.timestamp_utc.clone(),
        };
        match failure_from_fields(system, fields, self.executable_path.as_str(), canonical) {
            Some(f) => {
                self.stage = ScanStage::Done;
                ScanAction::Finish(Ok(Some(f)))
            },
            None => {
                if positional || version != 0 {
                    self.move_on()
                } else {
                    self.stage = ScanStage::RenderingPositional(keep);
                    ScanAction::RenderPositional
                }
            },
        }
    }

    /// Takes one step of the scan. A read that failed only because the query has no more
    /// records ends the scan; another failed read, or a read of no or too many records, ends it
    /// with an error. Each record is rendered; one that cannot be counts as a render failure,
    /// and only crash records (provider `Application Error`, event 1000) are looked at
    /// further: first their named data, then, for version-zero records, their positional
    /// data. A failed data rendering counts as such; a failed named rendering of a version-zero
    /// record goes on as empty named data. Data that describes a crash of the executable ends
    /// the scan with it. The scan ends after `MAX_SCANNED_EVENTS` records, with the error
    /// `scan_end_error` gives, if any.
    pub fn step(&mut self, event: ScanEvent) -> (r: ScanAction)
        requires
            scan_wf(*old(self)),
            scan_event_fits(old(self).stage, event),
        ensures
            final(self).executable_path == old(self).executable_path,
            scan_wf(*final(self)),
            old(self).stage is FetchingBatch ==> match event {
                ScanEvent::Batch(Err(code)) => if code == hresult_from_win32_spec(ERROR_NO_MORE_ITEMS) || code
                    == hresult_from_win32_spec(ERROR_TIMEOUT) {
                    final(self).stage is Done && finishes_without_match(old(self).counters, r)
                } else {
                    final(self).stage is Done && (r matches ScanAction::Finish(Err(m)) && m@
                        == "could not read the local Windows Application log"@)
                },
                ScanEvent::Batch(Ok(n)) => if n == 0 || n > EVENT_BATCH_SIZE {
                    final(self).stage is Done && (r matches ScanAction::Finish(Err(m)) && m@
                        == "Windows Event Log returned an invalid event batch"@)
                } else {
                    moves_on(ScanCounters { left_in_batch: n, ..old(self).counters }, *final(self), r)
                },
                _ => false,
            },
            old(self).stage is RenderingSystem ==> match event {
                ScanEvent::System(Err(_)) => moves_on(
                    ScanCounters {
                        system_render_failures: (old(self).counters.system_render_failures + 1) as usize,
                        ..old(self).counters
                    },
                    *final(self),
                    r,
                ),
                ScanEvent::System(Ok(None)) => moves_on(old(self).counters, *final(self), r),
                ScanEvent::System(Ok(Some(system))) => if system.provider@ != application_error_provider()
                    || system.event_id != APPLICATION_ERROR_EVENT_ID {
                    moves_on(old(self).counters, *final(self), r)
                } else {
                    &&& final(self).counters == (ScanCounters {
                        matching_candidates: (old(self).counters.matching_candidates + 1) as usize,
                        ..old(self).counters
                    })
                    &&& final(self).stage == ScanStage::RenderingNamed(system)
                    &&& r is RenderNamed
                },
                _ => false,
            },
            old(self).stage matches ScanStage::RenderingNamed(system) ==> match event {
                ScanEvent::Named(rendered) => {
                    let c = old(self).counters;
                    let c1 = match rendered {
                        Ok(_) => ScanCounters { data_render_successes: (c.data_render_successes + 1) as usize, ..c },
                        Err(_) => ScanCounters { data_render_failures: (c.data_render_failures + 1) as usize, ..c },
                    };
                    if rendered is Err && system.version != 0 {
                        moves_on(c1, *final(self), r)
                    } else {
                        let named = match rendered {
                            Ok(n) => n,
                            Err(_) => no_named_data(),
                        };
                        match failure_fields_spec(system, named, Seq::empty()) {
                            Some(fields) => handles_fields(c1, system, fields, old(self).executable_path@, *final(self), r, false),
                            None => after_named(c1, system, *final(self), r),
                        }
                    }
                },
                _ => false,
            },
            old(self).stage matches ScanStage::CheckingNamedPath(system, fields) ==> match event {
                ScanEvent::Canonical(canonical) => judged(
                    old(self).counters,
                    system,
                    fields,
                    match canonical {
                        Some((a, b)) => Some((a@, b@)),
                        None => None,
                    },
                    old(self).executable_path@,
                    *final(self),
                    r,
                    false,
                ),
                _ => false,
            },
            old(self).stage matches ScanStage::RenderingPositional(system) ==> match event {
                ScanEvent::Positional(Err(_)) => moves_on(
                    ScanCounters {
                        data_render_failures: (old(self).counters.data_render_failures + 1) as usize,
                        ..old(self).counters
                    },
                    *final(self),
                    r,
                ),
                ScanEvent::Positional(Ok(values)) => {
                    let c1 = ScanCounters {
                        data_render_successes: (old(self).counters.data_render_successes + 1) as usize,
                        ..old(self).counters
                    };
                    match failure_fields_spec(system, no_named_data(), values@) {
                        Some(fields) => handles_fields(c1, system, fields, old(self).executable_path@, *final(self), r, true),
                        None => moves_on(c1, *final(self), r),
                    }
                },
                _ => false,
            },
            old(self).stage matches ScanStage::CheckingPositionalPath(system, fields) ==> match event {
                ScanEvent::Canonical(canonical) => judged(
                    old(self).counters,
                    system,
                    fields,
                    match canonical {
                        Some((a, b)) => Some((a@, b@)),
                        None => None,
                    },
                    old(self).executable_path@,
                    *final(self),
                    r,
                    true,
                ),
                _ => false,
            },
    {
        let mut stage = ScanStage::Done;
        std::mem::swap(&mut stage, &mut self.stage);
        let c = self.counters;
        match stage {
            ScanStage::FetchingBatch => match event {
                ScanEvent::Batch(Err(code)) => {
                    if is_query_complete_error(code) {
                        self.finish_without_match()
                    } else {
                        ScanAction::Finish(Err(crate::text::owned("could not read the local Windows Application log")))
                    }
                },
                ScanEvent::Batch(Ok(n)) => {
                    if n == 0 || n > EVENT_BATCH_SIZE {
                        ScanAction::Finish(Err(crate::text::owned("Windows Event Log returned an invalid event batch")))
                    } else {
                        self.counters = ScanCounters { left_in_batch: n, ..c };
                        self.move_on()
                    }
                },
                _ => ScanAction::Finish(Ok(None)),
            },
            ScanStage::RenderingSystem => match event {
                ScanEvent::System(Err(_)) => {
                    self.counters = ScanCounters { system_render_failures: c.system_render_failures + 1, ..c };
                    self.move_on()
                },
                ScanEvent::System(Ok(None)) => self.move_on(),
                ScanEvent::System(Ok(Some(system))) => {
                    if !str_eq(system.provider.as_str(), "Application Error") || system.event_id != APPLICATION_ERROR_EVENT_ID {
                        proof {
                            reveal_strlit("Application Error");
                        }
                        self.move_on()
                    } else {
                        proof {
                            reveal_strlit("Application Error");
                        }
                        self.counters = ScanCounters { matching_candidates: c.matching_candidates + 1, ..c };
                        self.stage = ScanStage::RenderingNamed(system);
                        ScanAction::RenderNamed
                    }
                },
                _ => ScanAction::Finish(Ok(None)),
            },
            ScanStage::RenderingNamed(system) => match event {
                ScanEvent::Named(rendered) => {
                    let named = match rendered {
                        Ok(n) => {
                            self.counters = ScanCounters { data_render_successes: c.data_render_successes + 1, ..c };
                            n
                        },
                        Err(_) => {
                            self.counters = ScanCounters { data_render_failures: c.data_render_failures + 1, ..c };
                            if system.version != 0 {
                                return self.move_on();
                            }
                            NamedEventData {
                                app_name: None,
                                app_path: None,
                                faulting_module_name: None,
                                faulting_module_path: None,
                                exception_code: None,
                            }
                        },
                    };
                    let empty: Vec<Option<String>> = Vec::new();
                    match failure_fields(&system, named, empty.as_slice()) {
                        Some(fields) => match self.check_fields(system_copy(&system), fields_copy(&fields), false) {
                            Some(action) => action,
                            None => self.judge(system, fields, None, false),
                        },
                        None => {
                            if system.version != 0 {
                                self.move_on()
                            } else {
                                self.stage = ScanStage::RenderingPositional(system);
                                ScanAction::RenderPositional
                            }
                        },
                    }
                },
                _ => ScanAction::Finish(Ok(None)),
            },
            ScanStage::CheckingNamedPath(system, fields) => match event {
                ScanEvent::Canonical(canonical) => self.judge(system, fields, canonical, false),
                _ => ScanAction::Finish(Ok(None)),
            },
            ScanStage::RenderingPositional(system) => match event {
                ScanEvent::Positional(Err(_)) => {
                    self.counters = ScanCounters { data_render_failures: c.data_render_failures + 1, ..c };
                    self.move_on()
                },
                ScanEvent::Positional(Ok(values)) => {
                    self.counters = ScanCounters { data_render_successes: c.data_render_successes + 1, ..c };
                    let named = NamedEventData {
                        app_name: None,
                        app_path: None,
                        faulting_module_name: None,
                        faulting_module_path: None,
                        exception_code: None,
                    };
                    match failure_fields(&system, named, values.as_slice()) {
                        Some(fields) => match self.check_fields(system_copy(&system), fields_copy(&fields), true) {
                            Some(action) => action,
                            None => self.judge(system, fields, None, true),
                        },
                        None => self.move_on(),
                    }
                },
                _ => ScanAction::Finish(Ok(None)),
            },
            ScanStage::CheckingPositionalPath(system, fields) => match event {
                ScanEvent::Canonical(canonical) => self.judge(system, fields, canonical, true),
                _ => ScanAction::Finish(Ok(None)),
            },
            ScanStage::Done => ScanAction::Finish(Ok(None)),
        }
    }

    /// Judges a record's crash data: the paths are resolved first where both normalize.
    fn check_fields(&mut self, system: EventSystemValues, fields: FailureFields, positional: bool) -> (r: Option<ScanAction>)
        requires
            counters_wf(old(self).counters),
        ensures
            final(self).executable_path == old(self).executable_path,
            final(self).counters == old(self).counters,
            match (normalized_windows_path(fields.app_path@), normalized_windows_path(old(self).executable_path@)) {
                (Some(_), Some(_)) => r matches Some(a) && checks_path(*final(self), system, fields, a, positional),
                _ => r is None && final(self).stage == old(self).stage,
            },
    {
        let e = normalize_windows_path(fields.app_path.as_str());
        let x = normalize_windows_path(self.executable_path.as_str());
        match (e, x) {
            (Some(event_path), Some(executable_path)) => {
                if positional {
                    self.stage = ScanStage::CheckingPositionalPath(system, fields);
                } else {
                    self.stage = ScanStage::CheckingNamedPath(system, fields);
                }
                Some(ScanAction::Canonicalize { event_path, executable_path })
            },
            _ => None,
        }
    }
}

/// Largest rendered record, in bytes, that the scan accepts.
pub const MAX_RENDER_BUFFER_BYTES: usize = 65536;
/// Win32 error: the buffer is too small.
pub const ERROR_INSUFFICIENT_BUFFER: u32 = 122;

/// What a size probe of a record's rendering means (the probe renders into no buffer): a
/// probe that succeeds with nothing to render gives empty values (`Ok(None)`); one that
/// succeeds otherwise is invalid; one that fails for another reason than the buffer's size
/// means the record is not available. A size of zero or above `MAX_RENDER_BUFFER_BYTES` is
/// refused as well; otherwise the record is rendered into the given number of values
/// (`Ok(Some(n))`), enough to hold `buffer_used` bytes.
pub fn render_probe_outcome(
    probe: Result<(), i32>,
    buffer_used: u32,
    property_count: u32,
    variant_size: usize,
) -> (r: Result<Option<usize>, String>)
    requires
        variant_size > 0,
    ensures
        match probe {
            Ok(()) => if buffer_used == 0 && property_count == 0 {
                r == Ok::<Option<usize>, String>(None)
            } else {
                r matches Err(m) && m@ == "Windows Event Log record has an invalid render probe"@
            },
            Err(code) => if code != hresult_from_win32_spec(ERROR_INSUFFICIENT_BUFFER) || buffer_used == 0
                || buffer_used > MAX_RENDER_BUFFER_BYTES {
                r matches Err(m) && m@ == "Windows Event Log record is not available"@
            } else {
                r matches Ok(Some(n)) && n * variant_size >= buffer_used && (n - 1) * variant_size < buffer_used
            },
        },
{
    match probe {
        Ok(()) => {
            if buffer_used == 0 && property_count == 0 {
                Ok(None)
            } else {
                Err(crate::text::owned("Windows Event Log record has an invalid render probe"))
            }
        },
        Err(code) => {
            if code != hresult_from_win32(ERROR_INSUFFICIENT_BUFFER) || buffer_used == 0
                || buffer_used as usize > MAX_RENDER_BUFFER_BYTES {
                Err(crate::text::owned("Windows Event Log record is not available"))
            } else {
                let used = buffer_used as usize;
                let n = used / variant_size + if used % variant_size == 0 { 0 } else { 1 };
                proof {
                    assert(used == variant_size * (used / variant_size) + used % variant_size) by (nonlinear_arith)
                        requires variant_size > 0;
                    assert(n * variant_size == (used / variant_size) * variant_size + (n - used / variant_size) * variant_size)
                        by (nonlinear_arith);
                    assert((n - 1) * variant_size == n * variant_size - variant_size) by (nonlinear_arith);
                }
                Ok(Some(n))
            }
        },
    }
}

/// Checks the shape of a rendered record: at most `MAX_RENDER_BUFFER_BYTES` and at most the
/// buffer of `variants` values were used, and no more values were reported than the used
/// bytes hold.
pub fn check_rendered_shape(buffer_used: u32, property_count: u32, variants: usize, variant_size: usize) -> (r: Result<(), String>)
    requires
        variant_size > 0,
        variants * variant_size <= usize::MAX,
    ensures
        (buffer_used <= MAX_RENDER_BUFFER_BYTES && buffer_used <= variants * variant_size && property_count
            <= buffer_used as int / variant_size as int) ==> r is Ok,
        !(buffer_used <= MAX_RENDER_BUFFER_BYTES && buffer_used <= variants * variant_size && property_count
            <= buffer_used as int / variant_size as int) ==> (r matches Err(m) && m@
            == "Windows Event Log record has an unexpected shape"@),
{
    let used = buffer_used as usize;
    if used > MAX_RENDER_BUFFER_BYTES || used > variants * variant_size || property_count as usize > used / variant_size {
        Err(crate::text::owned("Windows Event Log record has an unexpected shape"))
    } else {
        Ok(())
    }
}

/// A calendar time as Windows gives it (`SYSTEMTIME`, without the day of the week).
#[derive(Debug, Clone, Copy, PartialEq, Eq, Structural)]
pub struct SystemTimeValues {
    pub year: u16,
    pub month: u16,
    pub day: u16,
    pub hour: u16,
    pub minute: u16,
    pub second: u16,
    pub milliseconds: u16,
}

/// `n` in decimal, with zeros in front up to `width` digits.
pub open spec fn zero_padded(n: nat, width: nat) -> Seq<char> {
    let d = crate::text::decimal(n);
    if d.len() < width {
        Seq::new((width - d.len()) as nat, |i: int| '0') + d
    } else {
        d
    }
}

fn zero_padded_text(n: u16, width: usize) -> (r: String)
    requires
        width <= 4,
    ensures
        r@ == zero_padded(n as nat, width as nat),
{
    let digits = crate::text::format_u64(n as u64);
    let d = str_chars(digits.as_str());
    let mut r = String::new();
    if d.len() < width {
        let mut k: usize = 0;
        while k < width - d.len()
            invariant
                d.len() < width,
                k <= width - d.len(),
                r@ == Seq::new(k as nat, |i: int| '0'),
            decreases width - d.len() - k,
        {
            crate::text::string_push(&mut r, '0');
            k = k + 1;
            assert(r@ =~= Seq::new(k as nat, |i: int| '0'));
        }
    }
    crate::text::push_str(&mut r, digits.as_str());
    assert(r@ =~= zero_padded(n as nat, width as nat));
    r
}

/// The timestamp text of a record's creation time, `YYYY-MM-DDThh:mm:ss.mmmZ`; `None` for a
/// time with a month outside `1..=12` or a day of zero.
pub open spec fn timestamp_text_spec(t: SystemTimeValues) -> Option<Seq<char>> {
    if t.month >= 1 && t.month <= 12 && t.day >= 1 {
        Some(zero_padded(t.year as nat, 4) + "-"@ + zero_padded(t.month as nat, 2) + "-"@ + zero_padded(t.day as nat, 2)
            + "T"@ + zero_padded(t.hour as nat, 2) + ":"@ + zero_padded(t.minute as nat, 2) + ":"@ + zero_padded(
            t.second as nat,
            2,
        ) + "."@ + zero_padded(t.milliseconds as nat, 3) + "Z"@)
    } else {
        None
    }
}

/// Formats a record's creation time (see `timestamp_text_spec`).
pub fn timestamp_text(t: SystemTimeValues) -> (r: Option<String>)
    ensures
        match timestamp_text_spec(t) {
            Some(s) => r matches Some(x) && x@ == s,
            None => r is None,
        },
{
    if !(t.month >= 1 && t.month <= 12 && t.day >= 1) {
        return None;
    }
    let mut r = zero_padded_text(t.year, 4);
    crate::text::push_str(&mut r, "-");
    crate::text::push_str(&mut r, zero_padded_text(t.month, 2).as_str());
    crate::text::push_str(&mut r, "-");
    crate::text::push_str(&mut r, zero_padded_text(t.day, 2).as_str());
    crate::text::push_str(&mut r, "T");
    crate::text::push_str(&mut r, zero_padded_text(t.hour, 2).as_str());
    crate::text::push_str(&mut r, ":");
    crate::text::push_str(&mut r, zero_padded_text(t.minute, 2).as_str());
    crate::text::push_str(&mut r, ":");
    crate::text::push_str(&mut r, zero_padded_text(t.second, 2).as_str());
    crate::text::push_str(&mut r, ".");
    crate::text::push_str(&mut r, zero_padded_text(t.milliseconds, 3).as_str());
    crate::text::push_str(&mut r, "Z");
    Some(r)
}

fn system_copy(s: &EventSystemValues) -> (r: EventSystemValues)
    ensures
        r == *s,
{
    EventSystemValues {
        provider: s.provider.clone(),
        event_id: s.event_id,
        version: s.version,
        event_record_id: s.event_record_id,
        timestamp_utc: s.timestamp_utc.clone(),
    }
}

fn fields_copy(f: &FailureFields) -> (r: FailureFields)
    ensures
        r == *f,
{
    FailureFields {
        app_name: f.app_name.clone(),
        app_path: f.app_path.clone(),
        faulting_module: f.faulting_module.clone(),
        faulting_module_path: match &f.faulting_module_path {
            Some(p) => Some(p.clone()),
            None => None,
        },
        exception_code: f.exception_code.clone(),
    }
}

} // verus!
