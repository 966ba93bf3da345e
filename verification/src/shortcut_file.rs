use vstd::prelude::*;
use crate::shortcut::{parent_dir, parent_dir_exec};
use crate::text::{concat, decimal, format_usize, owned};
use crate::winpath::{file_name, file_name_spec, join, join_spec};

verus! {

/// How many temporary names creating a new shortcut tries before giving up.
pub const TEMP_SHORTCUT_ATTEMPTS: usize = 100;

/// Why a new shortcut file could not be created.
#[derive(Debug, Clone, PartialEq, Eq)]
pub enum CreateShortcutNewError {
    AlreadyExists,
    ReserveFailed(String),
    WriteFailed(String),
}

/// The abstract value of a creation error.
pub enum CreateNewErrorView {
    AlreadyExists,
    ReserveFailed(Seq<char>),
    WriteFailed(Seq<char>),
}

/// The abstract value of a creation error.
pub open spec fn error_view(e: CreateShortcutNewError) -> CreateNewErrorView {
    match e {
        CreateShortcutNewError::AlreadyExists => CreateNewErrorView::AlreadyExists,
        CreateShortcutNewError::ReserveFailed(m) => CreateNewErrorView::ReserveFailed(m@),
        CreateShortcutNewError::WriteFailed(m) => CreateNewErrorView::WriteFailed(m@),
    }
}

/// What the file system answered when asked to create a file that must not exist yet.
#[derive(Debug, Clone, PartialEq, Eq)]
pub enum TempCreateOutcome {
    Created,
    AlreadyExists,
    Failed(String),
}

/// What the file system answered when asked to move a file to a name that must not exist yet.
#[derive(Debug, Clone, PartialEq, Eq)]
pub enum MoveOutcome {
    Moved,
    AlreadyExists,
    Failed(String),
}

/// What the driver does next.
#[derive(Debug, PartialEq, Eq)]
pub enum CreateNewAction {
    /// Asks whether the final shortcut path is taken.
    CheckFinal { path: String },
    /// Creates an empty file at `path`, failing if it exists.
    CreateTemp { path: String },
    /// Writes the shortcut to the reserved temporary path.
    Write { temp_path: String },
    /// Moves the temporary file to the final path without replacing anything there.
    Move { temp_path: String, final_path: String },
    /// Removes the temporary file (its result is ignored).
    RemoveTemp { temp_path: String },
    /// Creation is over.
    Finish(Result<(), CreateShortcutNewError>),
}

/// What the driver reports back.
#[derive(Debug, PartialEq, Eq)]
pub enum CreateNewEvent {
    FinalChecked(Result<bool, String>),
    TempCreated(TempCreateOutcome),
    Written(Result<(), String>),
    Moved(MoveOutcome),
    TempRemoved,
}

/// Where creating a new shortcut stands.
#[derive(Debug, Clone, Copy, PartialEq, Eq, Structural)]
pub enum CreateNewStage {
    CheckFinal,
    Reserve,
    Write,
    Move,
    Remove,
    Finished,
}

/// Creating a shortcut file without ever replacing an existing one: the shortcut is written
/// to a fresh temporary file next to the final path and then moved there without replacing.
#[derive(Debug)]
pub struct CreateShortcutNew {
    pub final_path: String,
    pub parent: String,
    pub file_name: String,
    pub nonce: String,
    pub attempt: usize,
    pub temp_path: String,
    pub pending: Result<(), CreateShortcutNewError>,
    pub stage: CreateNewStage,
}

/// The name of temporary file `attempt`: hidden, after the final name, marked with the nonce.
pub open spec fn temp_name_spec(file_name: Seq<char>, nonce: Seq<char>, attempt: nat) -> Seq<char> {
    "."@ + file_name + "."@ + nonce + "."@ + decimal(attempt) + ".tmp"@
}

/// The path of temporary file `attempt`, in the final path's directory.
pub open spec fn temp_path_spec(parent: Seq<char>, file_name: Seq<char>, nonce: Seq<char>, attempt: nat) -> Seq<char> {
    join_spec(parent, temp_name_spec(file_name, nonce, attempt))
}

/// Whether an event answers the action of a stage.
pub open spec fn create_event_fits(stage: CreateNewStage, event: CreateNewEvent) -> bool {
    match stage {
        CreateNewStage::CheckFinal => event is FinalChecked,
        CreateNewStage::Reserve => event is TempCreated,
        CreateNewStage::Write => event is Written,
        CreateNewStage::Move => event is Moved,
        CreateNewStage::Remove => event is TempRemoved,
        CreateNewStage::Finished => false,
    }
}

/// What holds of a creation between steps: the reserved name is the one of the current
/// attempt, and the attempt is in range.
pub open spec fn create_wf(c: CreateShortcutNew) -> bool {
    &&& c.attempt < TEMP_SHORTCUT_ATTEMPTS
    &&& (c.stage == CreateNewStage::Reserve || c.stage == CreateNewStage::Write || c.stage == CreateNewStage::Move
        || c.stage == CreateNewStage::Remove) ==> {
        &&& parent_dir(c.final_path@) == Some(c.parent@)
        &&& file_name_spec(c.final_path@) == Some(c.file_name@)
        &&& c.temp_path@ == temp_path_spec(c.parent@, c.file_name@, c.nonce@, c.attempt as nat)
    }
}

fn temp_path_exec(parent: &str, file_name: &str, nonce: &str, attempt: usize) -> (r: String)
    ensures
        r@ == temp_path_spec(parent@, file_name@, nonce@, attempt as nat),
{
    let a = concat(".", file_name);
    let b = concat(a.as_str(), ".");
    let c = concat(b.as_str(), nonce);
    let d = concat(c.as_str(), ".");
    let n = format_usize(attempt);
    let e = concat(d.as_str(), n.as_str());
    let f = concat(e.as_str(), ".tmp");
    proof {
        reveal_strlit(".");
        reveal_strlit(".tmp");
    }
    join(parent, f.as_str())
}

fn clone_text(s: &String) -> (r: String)
    ensures
        r@ == s@,
{
    owned(s.as_str())
}

impl CreateShortcutNew {
    /// Starts creating the shortcut `final_path`; `nonce` marks this creation's temporary
    /// names. The first action asks whether the final path is taken.
    pub fn start(final_path: String, nonce: String) -> (r: (CreateShortcutNew, CreateNewAction))
        ensures
            r.0.stage == CreateNewStage::CheckFinal,
            r.0.final_path@ == final_path@,
            r.0.nonce@ == nonce@,
            create_wf(r.0),
            r.1 matches CreateNewAction::CheckFinal { path } && path@ == final_path@,
    {
        let path = clone_text(&final_path);
        (
            CreateShortcutNew {
                final_path,
                parent: String::new(),
                file_name: String::new(),
                nonce,
                attempt: 0,
                temp_path: String::new(),
                pending: Ok(()),
                stage: CreateNewStage::CheckFinal,
            },
            CreateNewAction::CheckFinal { path },
        )
    }

    fn finish(&mut self, outcome: Result<(), CreateShortcutNewError>) -> (action: CreateNewAction)
        ensures
            final(self).stage == CreateNewStage::Finished,
            final(self).final_path == old(self).final_path,
            final(self).nonce == old(self).nonce,
            final(self).attempt == old(self).attempt,
            action == CreateNewAction::Finish(outcome),
    {
        self.stage = CreateNewStage::Finished;
        CreateNewAction::Finish(outcome)
    }

    fn remove_then(&mut self, outcome: Result<(), CreateShortcutNewError>) -> (action: CreateNewAction)
        ensures
            final(self).stage == CreateNewStage::Remove,
            final(self).pending == outcome,
            final(self).final_path == old(self).final_path,
            final(self).parent == old(self).parent,
            final(self).file_name == old(self).file_name,
            final(self).nonce == old(self).nonce,
            final(self).attempt == old(self).attempt,
            final(self).temp_path == old(self).temp_path,
            action matches CreateNewAction::RemoveTemp { temp_path } && temp_path@ == old(self).temp_path@,
    {
        self.stage = CreateNewStage::Remove;
        self.pending = outcome;
        CreateNewAction::RemoveTemp { temp_path: clone_text(&self.temp_path) }
    }

    /// Takes the answer to the last action and says what to do next:
    /// - final path check: an error refuses reservation, a taken path is a collision; else the
    ///   final path must have a directory and a file name, and the first temporary name is
    ///   tried;
    /// - temporary file: created means it is written next; taken tries the next name, up to
    ///   `TEMP_SHORTCUT_ATTEMPTS` names; any other failure refuses reservation;
    /// - writing: success moves the file; a failure removes the temporary file and reports it;
    /// - moving: success finishes; a taken final path or a failure removes the temporary file
    ///   and reports a collision or the failure;
    /// - removal: finishes with what was to be reported.
    pub fn step(&mut self, event: CreateNewEvent) -> (action: CreateNewAction)
        requires
            create_wf(*old(self)),
            create_event_fits(old(self).stage, event),
        ensures
            create_wf(*final(self)),
            final(self).final_path == old(self).final_path,
            final(self).nonce == old(self).nonce,
            (old(self).stage == CreateNewStage::CheckFinal ==> (event matches CreateNewEvent::FinalChecked(r) ==> {
                match r {
                    Err(e) => final(self).stage == CreateNewStage::Finished && (action matches CreateNewAction::Finish(Err(x))
                        && error_view(x) == CreateNewErrorView::ReserveFailed(e@)),
                    Ok(true) => final(self).stage == CreateNewStage::Finished && action == CreateNewAction::Finish(
                        Err(CreateShortcutNewError::AlreadyExists),
                    ),
                    Ok(false) => match (parent_dir(old(self).final_path@), file_name_spec(old(self).final_path@)) {
                        (Some(p), Some(n)) => {
                            &&& final(self).stage == CreateNewStage::Reserve
                            &&& final(self).attempt == 0
                            &&& final(self).parent@ == p
                            &&& final(self).file_name@ == n
                            &&& (action matches CreateNewAction::CreateTemp { path } && path@ == temp_path_spec(p, n, old(self).nonce@, 0))
                        },
                        (None, _) => final(self).stage == CreateNewStage::Finished && (action matches CreateNewAction::Finish(
                            Err(x),
                        ) && error_view(x) == CreateNewErrorView::ReserveFailed(
                            "shortcut path '"@ + old(self).final_path@ + "' has no parent directory"@,
                        )),
                        (Some(_), None) => final(self).stage == CreateNewStage::Finished && (action matches CreateNewAction::Finish(
                            Err(x),
                        ) && error_view(x) == CreateNewErrorView::ReserveFailed(
                            "shortcut path '"@ + old(self).final_path@ + "' has no file name"@,
                        )),
                    },
                }
            })),
            (old(self).stage == CreateNewStage::Reserve ==> (event matches CreateNewEvent::TempCreated(o) ==> {
                match o {
                    TempCreateOutcome::Created => final(self).stage == CreateNewStage::Write && final(self).temp_path
                        == old(self).temp_path && (action matches CreateNewAction::Write { temp_path } && temp_path@
                        == old(self).temp_path@),
                    TempCreateOutcome::AlreadyExists => if old(self).attempt + 1 < TEMP_SHORTCUT_ATTEMPTS {
                        &&& final(self).stage == CreateNewStage::Reserve
                        &&& final(self).attempt == old(self).attempt + 1
                        &&& (action matches CreateNewAction::CreateTemp { path } && path@ == temp_path_spec(
                            old(self).parent@,
                            old(self).file_name@,
                            old(self).nonce@,
                            (old(self).attempt + 1) as nat,
                        ))
                    } else {
                        final(self).stage == CreateNewStage::Finished && (action matches CreateNewAction::Finish(Err(x))
                            && error_view(x) == CreateNewErrorView::ReserveFailed(
                            "failed to reserve a unique temporary shortcut path in '"@ + old(self).parent@ + "'"@,
                        ))
                    },
                    TempCreateOutcome::Failed(e) => final(self).stage == CreateNewStage::Finished && (action matches CreateNewAction::Finish(
                        Err(x),
                    ) && error_view(x) == CreateNewErrorView::ReserveFailed(
                        "failed to reserve temporary shortcut path '"@ + old(self).temp_path@ + "': "@ + e@,
                    )),
                }
            })),
            (old(self).stage == CreateNewStage::Write ==> (event matches CreateNewEvent::Written(r) ==> {
                match r {
                    Ok(()) => final(self).stage == CreateNewStage::Move && (action matches CreateNewAction::Move {
                        temp_path,
                        final_path,
                    } && temp_path@ == old(self).temp_path@ && final_path@ == old(self).final_path@),
                    Err(e) => final(self).stage == CreateNewStage::Remove && (final(self).pending matches Err(x)
                        && error_view(x) == CreateNewErrorView::WriteFailed(e@)) && (action matches CreateNewAction::RemoveTemp {
                        temp_path,
                    } && temp_path@ == old(self).temp_path@),
                }
            })),
            (old(self).stage == CreateNewStage::Move ==> (event matches CreateNewEvent::Moved(o) ==> {
                match o {
                    MoveOutcome::Moved => final(self).stage == CreateNewStage::Finished && action == CreateNewAction::Finish(
                        Ok(()),
                    ),
                    MoveOutcome::AlreadyExists => final(self).stage == CreateNewStage::Remove && final(self).pending == Err::<
                        (),
                        CreateShortcutNewError,
                    >(CreateShortcutNewError::AlreadyExists) && (action matches CreateNewAction::RemoveTemp { temp_path }
                        && temp_path@ == old(self).temp_path@),
                    MoveOutcome::Failed(e) => final(self).stage == CreateNewStage::Remove && (final(self).pending matches Err(x)
                        && error_view(x) == CreateNewErrorView::WriteFailed(
                        "failed to move temporary shortcut '"@ + old(self).temp_path@ + "' to '"@ + old(self).final_path@
                            + "': "@ + e@,
                    )) && (action matches CreateNewAction::RemoveTemp { temp_path } && temp_path@ == old(self).temp_path@),
                }
            })),
            (old(self).stage == CreateNewStage::Remove ==> final(self).stage == CreateNewStage::Finished && action
                == CreateNewAction::Finish(old(self).pending)),
    {
        proof {
            reveal_strlit("shortcut path '");
            reveal_strlit("' has no parent directory");
            reveal_strlit("' has no file name");
            reveal_strlit("failed to reserve a unique temporary shortcut path in '");
            reveal_strlit("'");
            reveal_strlit("failed to reserve temporary shortcut path '");
            reveal_strlit("': ");
            reveal_strlit("failed to move temporary shortcut '");
            reveal_strlit("' to '");
        }
        match event {
            CreateNewEvent::FinalChecked(r) => match r {
                Err(e) => self.finish(Err(CreateShortcutNewError::ReserveFailed(e))),
                Ok(true) => self.finish(Err(CreateShortcutNewError::AlreadyExists)),
                Ok(false) => {
                    let parent = match parent_dir_exec(self.final_path.as_str()) {
                        Some(p) => p,
                        None => {
                            let a = concat("shortcut path '", self.final_path.as_str());
                            let m = concat(a.as_str(), "' has no parent directory");
                            return self.finish(Err(CreateShortcutNewError::ReserveFailed(m)));
                        },
                    };
                    let name = match file_name(self.final_path.as_str()) {
                        Some(n) => n,
                        None => {
                            let a = concat("shortcut path '", self.final_path.as_str());
                            let m = concat(a.as_str(), "' has no file name");
                            return self.finish(Err(CreateShortcutNewError::ReserveFailed(m)));
                        },
                    };
                    let path = temp_path_exec(parent.as_str(), name.as_str(), self.nonce.as_str(), 0);
                    self.parent = parent;
                    self.file_name = name;
                    self.attempt = 0;
                    self.temp_path = clone_text(&path);
                    self.stage = CreateNewStage::Reserve;
                    CreateNewAction::CreateTemp { path }
                },
            },
            CreateNewEvent::TempCreated(o) => match o {
                TempCreateOutcome::Created => {
                    self.stage = CreateNewStage::Write;
                    CreateNewAction::Write { temp_path: clone_text(&self.temp_path) }
                },
                TempCreateOutcome::AlreadyExists => {
                    if self.attempt + 1 < TEMP_SHORTCUT_ATTEMPTS {
                        let next = self.attempt + 1;
                        let path = temp_path_exec(self.parent.as_str(), self.file_name.as_str(), self.nonce.as_str(), next);
                        self.attempt = next;
                        self.temp_path = clone_text(&path);
                        CreateNewAction::CreateTemp { path }
                    } else {
                        let a = concat("failed to reserve a unique temporary shortcut path in '", self.parent.as_str());
                        let m = concat(a.as_str(), "'");
                        self.finish(Err(CreateShortcutNewError::ReserveFailed(m)))
                    }
                },
                TempCreateOutcome::Failed(e) => {
                    let a = concat("failed to reserve temporary shortcut path '", self.temp_path.as_str());
                    let b = concat(a.as_str(), "': ");
                    let m = concat(b.as_str(), e.as_str());
                    self.finish(Err(CreateShortcutNewError::ReserveFailed(m)))
                },
            },
            CreateNewEvent::Written(r) => match r {
                Ok(()) => {
                    self.stage = CreateNewStage::Move;
                    CreateNewAction::Move { temp_path: clone_text(&self.temp_path), final_path: clone_text(&self.final_path) }
                },
                Err(e) => self.remove_then(Err(CreateShortcutNewError::WriteFailed(e))),
            },
            CreateNewEvent::Moved(o) => match o {
                MoveOutcome::Moved => self.finish(Ok(())),
                MoveOutcome::AlreadyExists => self.remove_then(Err(CreateShortcutNewError::AlreadyExists)),
                MoveOutcome::Failed(e) => {
                    let a = concat("failed to move temporary shortcut '", self.temp_path.as_str());
                    let b = concat(a.as_str(), "' to '");
                    let c = concat(b.as_str(), self.final_path.as_str());
                    let d = concat(c.as_str(), "': ");
                    let m = concat(d.as_str(), e.as_str());
                    self.remove_then(Err(CreateShortcutNewError::WriteFailed(m)))
                },
            },
            CreateNewEvent::TempRemoved => {
                let mut outcome: Result<(), CreateShortcutNewError> = Ok(());
                std::mem::swap(&mut outcome, &mut self.pending);
                self.finish(outcome)
            },
        }
    }
}

} // verus!
