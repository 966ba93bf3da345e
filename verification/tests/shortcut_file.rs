use std::collections::HashMap;

use cpu_affinity_tool::shortcut_file::{
    CreateNewAction, CreateNewEvent, CreateShortcutNew, CreateShortcutNewError, MoveOutcome, TempCreateOutcome,
};

#[derive(Clone, Copy, PartialEq)]
enum FakeWriteMode {
    Success,
    FinalAppearsBeforeRename,
    FailAfterPartialWrite,
}

struct FakeFs {
    files: HashMap<String, Vec<u8>>,
    write_paths: Vec<String>,
    mode: FakeWriteMode,
    final_path: String,
}

impl FakeFs {
    fn new(final_path: &str, mode: FakeWriteMode) -> Self {
        FakeFs { files: HashMap::new(), write_paths: Vec::new(), mode, final_path: final_path.to_string() }
    }

    fn run(&mut self, final_path: &str, nonce: &str) -> Result<(), CreateShortcutNewError> {
        let (mut machine, mut action) = CreateShortcutNew::start(final_path.to_string(), nonce.to_string());
        loop {
            let event = match action {
                CreateNewAction::CheckFinal { path } => CreateNewEvent::FinalChecked(Ok(self.files.contains_key(&path))),
                CreateNewAction::CreateTemp { path } => {
                    if self.files.contains_key(&path) {
                        CreateNewEvent::TempCreated(TempCreateOutcome::AlreadyExists)
                    } else {
                        self.files.insert(path, Vec::new());
                        CreateNewEvent::TempCreated(TempCreateOutcome::Created)
                    }
                }
                CreateNewAction::Write { temp_path } => {
                    self.write_paths.push(temp_path.clone());
                    match self.mode {
                        FakeWriteMode::Success => {
                            self.files.insert(temp_path, b"new shortcut".to_vec());
                            CreateNewEvent::Written(Ok(()))
                        }
                        FakeWriteMode::FinalAppearsBeforeRename => {
                            self.files.insert(temp_path, b"new shortcut".to_vec());
                            self.files.insert(self.final_path.clone(), b"existing user shortcut".to_vec());
                            CreateNewEvent::Written(Ok(()))
                        }
                        FakeWriteMode::FailAfterPartialWrite => {
                            self.files.insert(temp_path, b"partial".to_vec());
                            CreateNewEvent::Written(Err("simulated shortcut write failure".to_string()))
                        }
                    }
                }
                CreateNewAction::Move { temp_path, final_path } => {
                    if self.files.contains_key(&final_path) {
                        CreateNewEvent::Moved(MoveOutcome::AlreadyExists)
                    } else {
                        let data = self.files.remove(&temp_path).unwrap();
                        self.files.insert(final_path, data);
                        CreateNewEvent::Moved(MoveOutcome::Moved)
                    }
                }
                CreateNewAction::RemoveTemp { temp_path } => {
                    self.files.remove(&temp_path);
                    CreateNewEvent::TempRemoved
                }
                CreateNewAction::Finish(result) => return result,
            };
            action = machine.step(event);
        }
    }
}

const DIR: &str = r"C:\Users\me\Desktop";
const FINAL: &str = r"C:\Users\me\Desktop\Rule.lnk";

#[test]
fn test_create_shortcut_new_writer_receives_temp_path_not_final_path() {
    let mut fs = FakeFs::new(FINAL, FakeWriteMode::Success);
    fs.run(FINAL, "42-7").unwrap();
    assert_eq!(fs.write_paths.len(), 1);
    assert_ne!(fs.write_paths[0], FINAL);
    assert!(!fs.files.contains_key(&fs.write_paths[0]));
    assert_eq!(fs.files.get(FINAL).unwrap(), b"new shortcut");
}

#[test]
fn test_create_shortcut_new_preserves_final_path_that_appears_before_rename() {
    let mut fs = FakeFs::new(FINAL, FakeWriteMode::FinalAppearsBeforeRename);
    let result = fs.run(FINAL, "42-7");
    assert_eq!(result, Err(CreateShortcutNewError::AlreadyExists));
    assert_eq!(fs.files.get(FINAL).unwrap(), b"existing user shortcut");
    assert_eq!(fs.write_paths.len(), 1);
    assert!(!fs.files.contains_key(&fs.write_paths[0]));
}

#[test]
fn test_create_shortcut_new_removes_temp_path_on_writer_failure() {
    let mut fs = FakeFs::new(FINAL, FakeWriteMode::FailAfterPartialWrite);
    let result = fs.run(FINAL, "42-7");
    assert!(matches!(result, Err(CreateShortcutNewError::WriteFailed(_))));
    assert_eq!(fs.write_paths.len(), 1);
    assert!(!fs.files.contains_key(&fs.write_paths[0]));
}

#[test]
fn test_create_shortcut_new_existing_final_path_returns_collision_without_writing() {
    let mut fs = FakeFs::new(FINAL, FakeWriteMode::Success);
    fs.files.insert(FINAL.to_string(), b"existing user shortcut".to_vec());
    let result = fs.run(FINAL, "42-7");
    assert_eq!(result, Err(CreateShortcutNewError::AlreadyExists));
    assert_eq!(fs.files.get(FINAL).unwrap(), b"existing user shortcut");
    assert!(fs.write_paths.is_empty());
}

#[test]
fn temp_names_are_hidden_numbered_and_skip_taken_ones() {
    let mut fs = FakeFs::new(FINAL, FakeWriteMode::Success);
    fs.files.insert(format!(r"{DIR}\.Rule.lnk.42-7.0.tmp"), Vec::new());
    fs.run(FINAL, "42-7").unwrap();
    assert_eq!(fs.write_paths, vec![format!(r"{DIR}\.Rule.lnk.42-7.1.tmp")]);
}

#[test]
fn reservation_gives_up_after_all_names_are_taken() {
    let mut fs = FakeFs::new(FINAL, FakeWriteMode::Success);
    for attempt in 0..100 {
        fs.files.insert(format!(r"{DIR}\.Rule.lnk.n.{attempt}.tmp"), Vec::new());
    }
    let result = fs.run(FINAL, "n");
    assert_eq!(
        result,
        Err(CreateShortcutNewError::ReserveFailed(format!(
            "failed to reserve a unique temporary shortcut path in '{DIR}'"
        )))
    );
    assert!(fs.write_paths.is_empty());
}

#[test]
fn step_errors_carry_their_messages() {
    let (mut m, _) = CreateShortcutNew::start(r"C:\".to_string(), "n".to_string());
    let action = m.step(CreateNewEvent::FinalChecked(Ok(false)));
    assert_eq!(
        action,
        CreateNewAction::Finish(Err(CreateShortcutNewError::ReserveFailed(
            r"shortcut path 'C:\' has no parent directory".to_string()
        )))
    );

    let (mut m, _) = CreateShortcutNew::start("Rule.lnk".to_string(), "n".to_string());
    let action = m.step(CreateNewEvent::FinalChecked(Ok(false)));
    assert_eq!(action, CreateNewAction::CreateTemp { path: ".Rule.lnk.n.0.tmp".to_string() });

    let (mut m, _) = CreateShortcutNew::start(FINAL.to_string(), "n".to_string());
    let _ = m.step(CreateNewEvent::FinalChecked(Ok(false)));
    let action = m.step(CreateNewEvent::TempCreated(TempCreateOutcome::Failed("denied".to_string())));
    assert_eq!(
        action,
        CreateNewAction::Finish(Err(CreateShortcutNewError::ReserveFailed(format!(
            r"failed to reserve temporary shortcut path '{DIR}\.Rule.lnk.n.0.tmp': denied"
        ))))
    );

    let (mut m, _) = CreateShortcutNew::start(FINAL.to_string(), "n".to_string());
    let _ = m.step(CreateNewEvent::FinalChecked(Ok(false)));
    let _ = m.step(CreateNewEvent::TempCreated(TempCreateOutcome::Created));
    let _ = m.step(CreateNewEvent::Written(Ok(())));
    let action = m.step(CreateNewEvent::Moved(MoveOutcome::Failed("disk full".to_string())));
    assert_eq!(action, CreateNewAction::RemoveTemp { temp_path: format!(r"{DIR}\.Rule.lnk.n.0.tmp") });
    let action = m.step(CreateNewEvent::TempRemoved);
    assert_eq!(
        action,
        CreateNewAction::Finish(Err(CreateShortcutNewError::WriteFailed(format!(
            r"failed to move temporary shortcut '{DIR}\.Rule.lnk.n.0.tmp' to '{FINAL}': disk full"
        ))))
    );

    let (mut m, _) = CreateShortcutNew::start(FINAL.to_string(), "n".to_string());
    let action = m.step(CreateNewEvent::FinalChecked(Err("access denied".to_string())));
    assert_eq!(action, CreateNewAction::Finish(Err(CreateShortcutNewError::ReserveFailed("access denied".to_string()))));
}
