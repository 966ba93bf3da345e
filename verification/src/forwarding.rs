use vstd::prelude::*;
use crate::ids::{GroupId, RuleId};
use crate::text::{is_whitespace, is_whitespace_exec, str_chars, string_push, str_eq, concat};
use crate::ids::{is_cli_safe_id, is_cli_safe_id_spec};
use crate::json::{
    JsonValue, json_document, parse_json_document, json_string_literal, json_quote, is_valid_utf8,
    member, keys_within, find_member, all_keys_within,
};

verus! {

/// Exit code of a GUI that failed to start.
pub const EXIT_GUI_STARTUP_ERROR: i32 = 1;
/// Exit code of a command line that could not be parsed.
pub const EXIT_CLI_PARSE_ERROR: i32 = 2;
/// Exit code of a forwarded request that the running instance accepted.
pub const EXIT_ACCEPTED: i32 = 0;
/// Exit code when the running instance has no such group.
pub const EXIT_MISSING_GROUP: i32 = 20;
/// Exit code when the running instance has no such rule.
pub const EXIT_MISSING_RULE: i32 = 21;
/// Exit code when the running instance could not launch the rule.
pub const EXIT_LAUNCH_REJECTED: i32 = 22;
/// Exit code when another instance holds the endpoint but never answered.
pub const EXIT_SERVER_NOT_READY: i32 = 23;
/// Exit code when the running instance did not answer in time.
pub const EXIT_TIMEOUT: i32 = 24;
/// Exit code of a malformed exchange.
pub const EXIT_PROTOCOL_ERROR: i32 = 25;
/// Exit code when the endpoint's security checks refused the exchange.
pub const EXIT_AUTH_FAILED: i32 = 26;

/// Longest detail text, in characters, that a response carries.
pub const MAX_DETAIL_CHARS: usize = 240;

/// What the tool was started to do.
#[derive(Debug, PartialEq, Eq)]
pub enum StartupIntent {
    NormalGui,
    RunRule { group_id: GroupId, rule_id: RuleId },
}

impl Clone for StartupIntent {
    fn clone(&self) -> (r: Self)
        ensures
            r == *self,
    {
        match self {
            StartupIntent::NormalGui => StartupIntent::NormalGui,
            StartupIntent::RunRule { group_id, rule_id } => StartupIntent::RunRule {
                group_id: group_id.clone(),
                rule_id: rule_id.clone(),
            },
        }
    }
}

/// How the running instance answered a request to run a rule.
#[derive(Debug, PartialEq, Eq)]
pub enum RunRuleOutcome {
    Accepted,
    MissingGroup,
    MissingRule,
    LaunchRejected(String),
}

/// A command sent to the running instance.
#[derive(Debug, PartialEq, Eq)]
pub enum IpcCommand {
    RunRule { group_id: GroupId, rule_id: RuleId },
}

/// The answer codes of the wire protocol.
#[derive(Debug, Clone, Copy, PartialEq, Eq, Structural)]
pub enum IpcResponseCode {
    Accepted,
    MissingGroup,
    MissingRule,
    LaunchRejected,
    ServerNotReady,
    Timeout,
    ProtocolError,
    AuthFailed,
}

/// An answer of the running instance.
#[derive(Debug, PartialEq, Eq)]
pub struct IpcResponse {
    pub code: IpcResponseCode,
    pub detail: Option<String>,
}

/// Why a frame could not be read or written.
#[derive(Debug, Clone, Copy, PartialEq, Eq, Structural)]
pub enum IpcProtocolError {
    OversizedFrame,
    InvalidUtf8,
    InvalidJson,
    UnsupportedVersion,
    InvalidId,
    SerializeFailed,
}

/// What trying to hand a request to a running instance came to.
#[derive(Debug, PartialEq, Eq)]
pub enum ForwardingProbeResult {
    Forwarded(IpcResponse),
    NoActiveInstance,
    ServerNotReady,
    ProtocolError,
    AuthFailed,
}

/// How sending one request failed.
#[derive(Debug, PartialEq, Eq)]
pub enum ForwardingClientError {
    NoServer,
    ServerNotReady,
    Timeout,
    SecurityRejected(String),
    Io(String),
}

/// What the process does next: run the GUI for an intent, or exit with a code.
#[derive(Debug, PartialEq, Eq)]
pub enum EntryAction {
    RunGui(StartupIntent),
    Exit(i32),
}

// ---------------------------------------------------------------------------------------
// Detail texts

/// `s` with every run of whitespace turned into one space and no whitespace at either end.
pub open spec fn collapse_whitespace(s: Seq<char>) -> Seq<char>
    decreases s.len(),
{
    if s.len() == 0 {
        Seq::empty()
    } else {
        let prev = collapse_whitespace(s.drop_last());
        let c = s.last();
        if is_whitespace(c) {
            prev
        } else if prev.len() > 0 && is_whitespace(s[s.len() - 2]) {
            prev.push(' ').push(c)
        } else {
            prev.push(c)
        }
    }
}

/// The detail text a response carries for `s`: its words joined by single spaces, cut to
/// the first `MAX_DETAIL_CHARS` characters.
pub open spec fn sanitized_detail(s: Seq<char>) -> Seq<char> {
    let c = collapse_whitespace(s);
    if c.len() <= MAX_DETAIL_CHARS {
        c
    } else {
        c.take(MAX_DETAIL_CHARS as int)
    }
}

/// Joins the words of `message` with single spaces and keeps at most `MAX_DETAIL_CHARS`
/// characters.
pub fn sanitize_detail(message: &str) -> (r: String)
    ensures
        r@ == sanitized_detail(message@),
{
    let chars = str_chars(message);
    let mut out = String::new();
    let mut started = false;
    let mut i: usize = 0;
    while i < chars.len()
        invariant
            chars@ == message@,
            i <= chars@.len(),
            out@ == collapse_whitespace(chars@.take(i as int)),
            started == (out@.len() > 0),
        decreases chars.len() - i,
    {
        let c = chars[i];
        let ghost prefix = chars@.take(i + 1);
        assert(prefix.drop_last() =~= chars@.take(i as int));
        if !is_whitespace_exec(c) {
            if started && i > 0 && is_whitespace_exec(chars[i - 1]) {
                assert(prefix[prefix.len() - 2] == chars@[i - 1]);
                string_push(&mut out, ' ');
            } else if i > 0 {
                assert(prefix[prefix.len() - 2] == chars@[i - 1]);
            }
            string_push(&mut out, c);
            started = true;
        }
        proof {
            assert(out@ =~= collapse_whitespace(prefix));
        }
        i = i + 1;
    }
    assert(chars@.take(i as int) =~= message@);
    let mut r = String::new();
    let full = str_chars(out.as_str());
    let mut k: usize = 0;
    while k < full.len() && k < MAX_DETAIL_CHARS
        invariant
            full@ == collapse_whitespace(message@),
            k <= full@.len(),
            k <= MAX_DETAIL_CHARS,
            r@ == full@.take(k as int),
        decreases full.len() - k,
    {
        string_push(&mut r, full[k]);
        assert(r@ =~= full@.take(k + 1));
        k = k + 1;
    }
    assert(full@.len() <= MAX_DETAIL_CHARS ==> full@.take(k as int) =~= full@);
    r
}

// ---------------------------------------------------------------------------------------
// Answers and exit codes

/// The answer code for a rule outcome.
pub open spec fn outcome_code(outcome: RunRuleOutcome) -> IpcResponseCode {
    match outcome {
        RunRuleOutcome::Accepted => IpcResponseCode::Accepted,
        RunRuleOutcome::MissingGroup => IpcResponseCode::MissingGroup,
        RunRuleOutcome::MissingRule => IpcResponseCode::MissingRule,
        RunRuleOutcome::LaunchRejected(_) => IpcResponseCode::LaunchRejected,
    }
}

/// The answer the running instance sends for a rule outcome: a launch refusal carries its
/// message as sanitized detail text, the other outcomes carry none.
pub fn run_rule_outcome_to_response(outcome: RunRuleOutcome) -> (r: IpcResponse)
    ensures
        r.code == outcome_code(outcome),
        match outcome {
            RunRuleOutcome::LaunchRejected(m) => r.detail matches Some(d) && d@ == sanitized_detail(
                m@,
            ),
            _ => r.detail is None,
        },
{
    match outcome {
        RunRuleOutcome::Accepted => IpcResponse { code: IpcResponseCode::Accepted, detail: None },
        RunRuleOutcome::MissingGroup => IpcResponse {
            code: IpcResponseCode::MissingGroup,
            detail: None,
        },
        RunRuleOutcome::MissingRule => IpcResponse { code: IpcResponseCode::MissingRule, detail: None },
        RunRuleOutcome::LaunchRejected(message) => IpcResponse {
            code: IpcResponseCode::LaunchRejected,
            detail: Some(sanitize_detail(message.as_str())),
        },
    }
}

/// The exit code of each answer code.
pub open spec fn exit_code_of(code: IpcResponseCode) -> i32 {
    match code {
        IpcResponseCode::Accepted => EXIT_ACCEPTED,
        IpcResponseCode::MissingGroup => EXIT_MISSING_GROUP,
        IpcResponseCode::MissingRule => EXIT_MISSING_RULE,
        IpcResponseCode::LaunchRejected => EXIT_LAUNCH_REJECTED,
        IpcResponseCode::ServerNotReady => EXIT_SERVER_NOT_READY,
        IpcResponseCode::Timeout => EXIT_TIMEOUT,
        IpcResponseCode::ProtocolError => EXIT_PROTOCOL_ERROR,
        IpcResponseCode::AuthFailed => EXIT_AUTH_FAILED,
    }
}

/// The exit code of a process whose request was answered with `response`.
pub fn forwarding_exit_code(response: &IpcResponse) -> (r: i32)
    ensures
        r == exit_code_of(response.code),
{
    match response.code {
        IpcResponseCode::Accepted => EXIT_ACCEPTED,
        IpcResponseCode::MissingGroup => EXIT_MISSING_GROUP,
        IpcResponseCode::MissingRule => EXIT_MISSING_RULE,
        IpcResponseCode::LaunchRejected => EXIT_LAUNCH_REJECTED,
        IpcResponseCode::ServerNotReady => EXIT_SERVER_NOT_READY,
        IpcResponseCode::Timeout => EXIT_TIMEOUT,
        IpcResponseCode::ProtocolError => EXIT_PROTOCOL_ERROR,
        IpcResponseCode::AuthFailed => EXIT_AUTH_FAILED,
    }
}

/// Only an accepted request exits with 0; every answer code has its own exit code, and none
/// of them is the code of a GUI startup failure or of a command line that could not be
/// parsed.
pub proof fn lemma_exit_codes_distinct(a: IpcResponseCode, b: IpcResponseCode)
    ensures
        (exit_code_of(a) == 0) <==> (a == IpcResponseCode::Accepted),
        a != b ==> exit_code_of(a) != exit_code_of(b),
        exit_code_of(a) != EXIT_GUI_STARTUP_ERROR,
        exit_code_of(a) != EXIT_CLI_PARSE_ERROR,
{
}

/// What the process does for a startup intent and the result of probing for a running
/// instance.
pub open spec fn entry_action_for(intent: StartupIntent, probe: ForwardingProbeResult) -> EntryAction {
    if intent is NormalGui {
        EntryAction::RunGui(intent)
    } else {
        match probe {
            ForwardingProbeResult::Forwarded(response) => EntryAction::Exit(exit_code_of(response.code)),
            ForwardingProbeResult::NoActiveInstance => EntryAction::RunGui(intent),
            ForwardingProbeResult::ServerNotReady => EntryAction::Exit(EXIT_SERVER_NOT_READY),
            ForwardingProbeResult::ProtocolError => EntryAction::Exit(EXIT_PROTOCOL_ERROR),
            ForwardingProbeResult::AuthFailed => EntryAction::Exit(EXIT_AUTH_FAILED),
        }
    }
}

/// What the process does: the plain GUI always runs; a rule request exits with the code of
/// the running instance's answer, runs the GUI itself when no instance is running, and exits
/// with an error code when the running instance could not be reached.
pub fn decide_entry_action(startup_intent: StartupIntent, probe_result: ForwardingProbeResult) -> (r:
    EntryAction)
    ensures
        r == entry_action_for(startup_intent, probe_result),
{
    if let StartupIntent::NormalGui = startup_intent {
        return EntryAction::RunGui(startup_intent);
    }
    match probe_result {
        ForwardingProbeResult::Forwarded(response) => EntryAction::Exit(forwarding_exit_code(&response)),
        ForwardingProbeResult::NoActiveInstance => EntryAction::RunGui(startup_intent),
        ForwardingProbeResult::ServerNotReady => EntryAction::Exit(EXIT_SERVER_NOT_READY),
        ForwardingProbeResult::ProtocolError => EntryAction::Exit(EXIT_PROTOCOL_ERROR),
        ForwardingProbeResult::AuthFailed => EntryAction::Exit(EXIT_AUTH_FAILED),
    }
}

/// The plain GUI never forwards: whatever the probe gave, it runs.
pub proof fn lemma_normal_gui_always_runs(probe: ForwardingProbeResult)
    ensures
        entry_action_for(StartupIntent::NormalGui, probe) == EntryAction::RunGui(StartupIntent::NormalGui),
{
}

/// A rule request exits with 0 exactly when the running instance accepted it, and runs the
/// GUI itself only when no instance is running.
pub proof fn lemma_run_rule_entry_action(group_id: GroupId, rule_id: RuleId, probe: ForwardingProbeResult)
    ensures
        ({
            let intent = StartupIntent::RunRule { group_id, rule_id };
            &&& (entry_action_for(intent, probe) == EntryAction::Exit(0)) <==> (probe matches ForwardingProbeResult::Forwarded(resp) && resp.code == IpcResponseCode::Accepted)
            &&& (entry_action_for(intent, probe) is RunGui) <==> (probe is NoActiveInstance)
        }),
{
}

// ---------------------------------------------------------------------------------------
// Wire frames

/// Version of the wire protocol.
pub const IPC_PROTOCOL_VERSION: u16 = 1;
/// Longest frame, in bytes, that either side reads.
pub const MAX_FRAME_BYTES: usize = 4096;

/// The member `key` of `members` when it is a number that fits in 16 bits.
pub open spec fn u16_member(members: Seq<(String, JsonValue)>, key: Seq<char>) -> Option<u16> {
    match member(members, key) {
        Some(JsonValue::Number(Some(n))) => if n <= u16::MAX {
            Some(n as u16)
        } else {
            None
        },
        _ => None,
    }
}

/// The member `key` of `members` when it is a string.
pub open spec fn string_member(members: Seq<(String, JsonValue)>, key: Seq<char>) -> Option<String> {
    match member(members, key) {
        Some(JsonValue::Str(s)) => Some(s),
        _ => None,
    }
}

/// The keys a command frame may hold.
pub open spec fn frame_keys() -> Seq<Seq<char>> {
    seq!["version"@, "command"@]
}

/// The keys a rule command may hold.
pub open spec fn run_rule_keys() -> Seq<Seq<char>> {
    seq!["type"@, "group_id"@, "rule_id"@]
}

/// The keys a response frame may hold.
pub open spec fn response_keys() -> Seq<Seq<char>> {
    seq!["version"@, "code"@, "detail"@]
}

/// The identifiers of a well-formed rule command object: it holds no other keys, its
/// `type` is `run_rule` and both ids are strings.
pub open spec fn run_rule_ids(command: JsonValue) -> Option<(String, String)> {
    match command {
        JsonValue::Object(cm) => {
            if keys_within(cm@, run_rule_keys()) && (string_member(cm@, "type"@) matches Some(t) && t@
                == "run_rule"@) && string_member(cm@, "group_id"@) is Some && string_member(
                cm@,
                "rule_id"@,
            ) is Some {
                Some((string_member(cm@, "group_id"@).unwrap(), string_member(cm@, "rule_id"@).unwrap()))
            } else {
                None
            }
        },
        _ => None,
    }
}

/// The command a parsed frame document carries: an object with exactly a 16-bit `version`
/// and a rule `command`, of the supported version, whose ids are safe on a command line.
pub open spec fn command_from_document(doc: JsonValue) -> Result<IpcCommand, IpcProtocolError> {
    match doc {
        JsonValue::Object(top) => {
            if !keys_within(top@, frame_keys()) {
                Err(IpcProtocolError::InvalidJson)
            } else {
                match (u16_member(top@, "version"@), member(top@, "command"@)) {
                    (Some(version), Some(command)) => match run_rule_ids(command) {
                        Some((g, r)) => if version != IPC_PROTOCOL_VERSION {
                            Err(IpcProtocolError::UnsupportedVersion)
                        } else if !is_cli_safe_id_spec(g@) || !is_cli_safe_id_spec(r@) {
                            Err(IpcProtocolError::InvalidId)
                        } else {
                            Ok(IpcCommand::RunRule { group_id: GroupId(g), rule_id: RuleId(r) })
                        },
                        None => Err(IpcProtocolError::InvalidJson),
                    },
                    _ => Err(IpcProtocolError::InvalidJson),
                }
            }
        },
        _ => Err(IpcProtocolError::InvalidJson),
    }
}

/// Reading a command frame: too long, not UTF-8, not JSON, then the document's own checks.
pub open spec fn command_frame_result(frame: Seq<u8>) -> Result<IpcCommand, IpcProtocolError> {
    if frame.len() > MAX_FRAME_BYTES {
        Err(IpcProtocolError::OversizedFrame)
    } else if !vstd::utf8::valid_utf8(frame) {
        Err(IpcProtocolError::InvalidUtf8)
    } else {
        match json_document(frame) {
            Err(_) => Err(IpcProtocolError::InvalidJson),
            Ok(doc) => command_from_document(doc),
        }
    }
}

fn frame_key_list() -> (r: [&'static str; 2])
    ensures
        r@.map_values(|k: &str| k@) == frame_keys(),
{
    let r = ["version", "command"];
    assert(r@.map_values(|k: &str| k@) =~= frame_keys());
    r
}

fn run_rule_key_list() -> (r: [&'static str; 3])
    ensures
        r@.map_values(|k: &str| k@) == run_rule_keys(),
{
    let r = ["type", "group_id", "rule_id"];
    assert(r@.map_values(|k: &str| k@) =~= run_rule_keys());
    r
}

fn response_key_list() -> (r: [&'static str; 3])
    ensures
        r@.map_values(|k: &str| k@) == response_keys(),
{
    let r = ["version", "code", "detail"];
    assert(r@.map_values(|k: &str| k@) =~= response_keys());
    r
}

fn u16_member_of(members: &Vec<(String, JsonValue)>, key: &str) -> (r: Option<u16>)
    ensures
        r == u16_member(members@, key@),
{
    match find_member(members, key) {
        Some(JsonValue::Number(Some(n))) => if *n <= 65535 {
            Some(*n as u16)
        } else {
            None
        },
        _ => None,
    }
}

fn string_member_of(members: &Vec<(String, JsonValue)>, key: &str) -> (r: Option<String>)
    ensures
        r == string_member(members@, key@),
{
    match find_member(members, key) {
        Some(JsonValue::Str(s)) => Some(s.clone()),
        _ => None,
    }
}

fn run_rule_ids_of(command: &JsonValue) -> (r: Option<(String, String)>)
    ensures
        r == run_rule_ids(*command),
{
    match command {
        JsonValue::Object(cm) => {
            let keys = run_rule_key_list();
            if !all_keys_within(cm, &keys) {
                return None;
            }
            let tag = string_member_of(cm, "type");
            let tag_ok = match &tag {
                Some(t) => str_eq(t.as_str(), "run_rule"),
                None => false,
            };
            if !tag_ok {
                return None;
            }
            let group_id = string_member_of(cm, "group_id");
            let rule_id = string_member_of(cm, "rule_id");
            match (group_id, rule_id) {
                (Some(g), Some(r)) => Some((g, r)),
                _ => None,
            }
        },
        _ => None,
    }
}

fn command_from_json(doc: JsonValue) -> (r: Result<IpcCommand, IpcProtocolError>)
    ensures
        r == command_from_document(doc),
{
    match doc {
        JsonValue::Object(top) => {
            let keys = frame_key_list();
            if !all_keys_within(&top, &keys) {
                return Err(IpcProtocolError::InvalidJson);
            }
            let version = u16_member_of(&top, "version");
            let ids = match find_member(&top, "command") {
                Some(command) => run_rule_ids_of(command),
                None => None,
            };
            match (version, ids) {
                (Some(v), Some((g, r))) => {
                    if v != IPC_PROTOCOL_VERSION {
                        Err(IpcProtocolError::UnsupportedVersion)
                    } else if !is_cli_safe_id(g.as_str()) || !is_cli_safe_id(r.as_str()) {
                        Err(IpcProtocolError::InvalidId)
                    } else {
                        Ok(IpcCommand::RunRule { group_id: GroupId(g), rule_id: RuleId(r) })
                    }
                },
                _ => Err(IpcProtocolError::InvalidJson),
            }
        },
        _ => Err(IpcProtocolError::InvalidJson),
    }
}

/// Reads a command frame: at most `MAX_FRAME_BYTES` of UTF-8 holding one JSON object with
/// exactly a `version` and a `command`; the command is a rule command with no other keys;
/// the version must be the supported one and both ids safe on a command line.
pub fn parse_ipc_command_frame(frame: &[u8]) -> (r: Result<IpcCommand, IpcProtocolError>)
    ensures
        r == command_frame_result(frame@),
{
    if frame.len() > MAX_FRAME_BYTES {
        return Err(IpcProtocolError::OversizedFrame);
    }
    if !is_valid_utf8(frame) {
        return Err(IpcProtocolError::InvalidUtf8);
    }
    match parse_json_document(frame) {
        Err(_) => Err(IpcProtocolError::InvalidJson),
        Ok(doc) => command_from_json(doc),
    }
}

/// The text of the frame that carries a rule command.
pub open spec fn command_frame_text(group_id: Seq<char>, rule_id: Seq<char>) -> Seq<char> {
    "{\"version\":1,\"command\":{\"type\":\"run_rule\",\"group_id\":"@ + json_string_literal(group_id)
        + ",\"rule_id\":"@ + json_string_literal(rule_id) + "}}"@
}

/// Writes the frame that carries a command; writing cannot fail.
pub fn serialize_ipc_command_frame(command: &IpcCommand) -> (r: Result<Vec<u8>, IpcProtocolError>)
    ensures
        match *command {
            IpcCommand::RunRule { group_id, rule_id } => r matches Ok(bytes) && bytes@
                == vstd::utf8::encode_utf8(command_frame_text(group_id.0@, rule_id.0@)),
        },
{
    match command {
        IpcCommand::RunRule { group_id, rule_id } => {
            let g = json_quote(group_id.0.as_str());
            let rl = json_quote(rule_id.0.as_str());
            let a = concat("{\"version\":1,\"command\":{\"type\":\"run_rule\",\"group_id\":", g.as_str());
            let b = concat(a.as_str(), ",\"rule_id\":");
            let c = concat(b.as_str(), rl.as_str());
            let d = concat(c.as_str(), "}}");
            assert(d@ =~= command_frame_text(group_id.0@, rule_id.0@));
            Ok(d.as_str().as_bytes_vec())
        },
    }
}

/// The snake-case name of an answer code on the wire.
pub open spec fn code_name(code: IpcResponseCode) -> Seq<char> {
    match code {
        IpcResponseCode::Accepted => "accepted"@,
        IpcResponseCode::MissingGroup => "missing_group"@,
        IpcResponseCode::MissingRule => "missing_rule"@,
        IpcResponseCode::LaunchRejected => "launch_rejected"@,
        IpcResponseCode::ServerNotReady => "server_not_ready"@,
        IpcResponseCode::Timeout => "timeout"@,
        IpcResponseCode::ProtocolError => "protocol_error"@,
        IpcResponseCode::AuthFailed => "auth_failed"@,
    }
}

/// The answer code a wire name stands for.
pub open spec fn code_named(name: Seq<char>) -> Option<IpcResponseCode> {
    if name == "accepted"@ {
        Some(IpcResponseCode::Accepted)
    } else if name == "missing_group"@ {
        Some(IpcResponseCode::MissingGroup)
    } else if name == "missing_rule"@ {
        Some(IpcResponseCode::MissingRule)
    } else if name == "launch_rejected"@ {
        Some(IpcResponseCode::LaunchRejected)
    } else if name == "server_not_ready"@ {
        Some(IpcResponseCode::ServerNotReady)
    } else if name == "timeout"@ {
        Some(IpcResponseCode::Timeout)
    } else if name == "protocol_error"@ {
        Some(IpcResponseCode::ProtocolError)
    } else if name == "auth_failed"@ {
        Some(IpcResponseCode::AuthFailed)
    } else {
        None
    }
}

/// The answer code a JSON value stands for: its wire name as a string, or an object whose
/// single member is the wire name with a `null` value.
pub open spec fn code_from_json_value(v: JsonValue) -> Option<IpcResponseCode> {
    match v {
        JsonValue::Str(s) => code_named(s@),
        JsonValue::Object(m) => if m@.len() == 1 && m@[0].1 is Null {
            code_named(m@[0].0@)
        } else {
            None
        },
        _ => None,
    }
}

/// The detail of a response document: absent or `null` for none, a string for some, and
/// anything else is malformed.
pub open spec fn detail_member(members: Seq<(String, JsonValue)>) -> Option<Option<String>> {
    match member(members, "detail"@) {
        None => Some(None),
        Some(JsonValue::Null) => Some(None),
        Some(JsonValue::Str(s)) => Some(Some(s)),
        _ => None,
    }
}

/// What a parsed response document gives: an object with a 16-bit `version`, a `code`,
/// optionally a `detail`, and nothing else, of the supported version. The detail is
/// sanitized (see `fits_response`).
pub open spec fn response_from_document(doc: JsonValue) -> Result<(IpcResponseCode, Option<String>), IpcProtocolError> {
    match doc {
        JsonValue::Object(top) => {
            if !keys_within(top@, response_keys()) {
                Err(IpcProtocolError::InvalidJson)
            } else {
                match (u16_member(top@, "version"@), member(top@, "code"@), detail_member(top@)) {
                    (Some(version), Some(code_value), Some(detail)) => match code_from_json_value(code_value) {
                        Some(code) => if version != IPC_PROTOCOL_VERSION {
                            Err(IpcProtocolError::UnsupportedVersion)
                        } else {
                            Ok((code, detail))
                        },
                        None => Err(IpcProtocolError::InvalidJson),
                    },
                    _ => Err(IpcProtocolError::InvalidJson),
                }
            }
        },
        _ => Err(IpcProtocolError::InvalidJson),
    }
}

/// Reading a response frame: too long, not UTF-8, not JSON, then the document's own checks.
pub open spec fn response_frame_result(frame: Seq<u8>) -> Result<(IpcResponseCode, Option<String>), IpcProtocolError> {
    if frame.len() > MAX_FRAME_BYTES {
        Err(IpcProtocolError::OversizedFrame)
    } else if !vstd::utf8::valid_utf8(frame) {
        Err(IpcProtocolError::InvalidUtf8)
    } else {
        match json_document(frame) {
            Err(_) => Err(IpcProtocolError::InvalidJson),
            Ok(doc) => response_from_document(doc),
        }
    }
}

/// `r` is the response that the decoded `(code, detail)` stands for once its detail text is
/// sanitized.
pub open spec fn fits_response(r: IpcResponse, decoded: (IpcResponseCode, Option<String>)) -> bool {
    &&& r.code == decoded.0
    &&& match decoded.1 {
        None => r.detail is None,
        Some(d) => r.detail matches Some(s) && s@ == sanitized_detail(d@),
    }
}

fn code_named_exec(name: &str) -> (r: Option<IpcResponseCode>)
    ensures
        r == code_named(name@),
{
    if str_eq(name, "accepted") {
        Some(IpcResponseCode::Accepted)
    } else if str_eq(name, "missing_group") {
        Some(IpcResponseCode::MissingGroup)
    } else if str_eq(name, "missing_rule") {
        Some(IpcResponseCode::MissingRule)
    } else if str_eq(name, "launch_rejected") {
        Some(IpcResponseCode::LaunchRejected)
    } else if str_eq(name, "server_not_ready") {
        Some(IpcResponseCode::ServerNotReady)
    } else if str_eq(name, "timeout") {
        Some(IpcResponseCode::Timeout)
    } else if str_eq(name, "protocol_error") {
        Some(IpcResponseCode::ProtocolError)
    } else if str_eq(name, "auth_failed") {
        Some(IpcResponseCode::AuthFailed)
    } else {
        None
    }
}

fn code_from_json(v: &JsonValue) -> (r: Option<IpcResponseCode>)
    ensures
        r == code_from_json_value(*v),
{
    match v {
        JsonValue::Str(s) => code_named_exec(s.as_str()),
        JsonValue::Object(m) => {
            if m.len() == 1 {
                match &m[0].1 {
                    JsonValue::Null => code_named_exec(m[0].0.as_str()),
                    _ => None,
                }
            } else {
                None
            }
        },
        _ => None,
    }
}

fn detail_member_of(members: &Vec<(String, JsonValue)>) -> (r: Option<Option<String>>)
    ensures
        r == detail_member(members@),
{
    match find_member(members, "detail") {
        None => Some(None),
        Some(JsonValue::Null) => Some(None),
        Some(JsonValue::Str(s)) => Some(Some(s.clone())),
        _ => None,
    }
}

fn response_from_json(doc: JsonValue) -> (r: Result<(IpcResponseCode, Option<String>), IpcProtocolError>)
    ensures
        r == response_from_document(doc),
{
    match doc {
        JsonValue::Object(top) => {
            let keys = response_key_list();
            if !all_keys_within(&top, &keys) {
                return Err(IpcProtocolError::InvalidJson);
            }
            let version = u16_member_of(&top, "version");
            let code = match find_member(&top, "code") {
                Some(v) => Some(code_from_json(v)),
                None => None,
            };
            let detail = detail_member_of(&top);
            match (version, code, detail) {
                (Some(v), Some(Some(c)), Some(d)) => if v != IPC_PROTOCOL_VERSION {
                    Err(IpcProtocolError::UnsupportedVersion)
                } else {
                    Ok((c, d))
                },
                _ => Err(IpcProtocolError::InvalidJson),
            }
        },
        _ => Err(IpcProtocolError::InvalidJson),
    }
}

/// Reads a response frame: at most `MAX_FRAME_BYTES` of UTF-8 holding one JSON object with a
/// `version`, a known `code`, optionally a `detail`, and nothing else, of the supported
/// version; the detail comes back sanitized.
pub fn parse_ipc_response_frame(frame: &[u8]) -> (r: Result<IpcResponse, IpcProtocolError>)
    ensures
        match response_frame_result(frame@) {
            Ok(decoded) => r matches Ok(resp) && fits_response(resp, decoded),
            Err(e) => r == Err::<IpcResponse, IpcProtocolError>(e),
        },
{
    if frame.len() > MAX_FRAME_BYTES {
        return Err(IpcProtocolError::OversizedFrame);
    }
    if !is_valid_utf8(frame) {
        return Err(IpcProtocolError::InvalidUtf8);
    }
    match parse_json_document(frame) {
        Err(_) => Err(IpcProtocolError::InvalidJson),
        Ok(doc) => match response_from_json(doc) {
            Ok((code, detail)) => {
                let detail = match detail {
                    Some(d) => Some(sanitize_detail(d.as_str())),
                    None => None,
                };
                Ok(IpcResponse { code, detail })
            },
            Err(e) => Err(e),
        },
    }
}

/// The wire name of an answer code, as a JSON string literal.
pub open spec fn code_literal(code: IpcResponseCode) -> Seq<char> {
    seq!['"'] + code_name(code) + seq!['"']
}

fn code_literal_text(code: IpcResponseCode) -> (r: &'static str)
    ensures
        r@ == code_literal(code),
{
    let r = match code {
        IpcResponseCode::Accepted => "\"accepted\"",
        IpcResponseCode::MissingGroup => "\"missing_group\"",
        IpcResponseCode::MissingRule => "\"missing_rule\"",
        IpcResponseCode::LaunchRejected => "\"launch_rejected\"",
        IpcResponseCode::ServerNotReady => "\"server_not_ready\"",
        IpcResponseCode::Timeout => "\"timeout\"",
        IpcResponseCode::ProtocolError => "\"protocol_error\"",
        IpcResponseCode::AuthFailed => "\"auth_failed\"",
    };
    proof {
        reveal_strlit("\"accepted\"");
        reveal_strlit("accepted");
        reveal_strlit("\"missing_group\"");
        reveal_strlit("missing_group");
        reveal_strlit("\"missing_rule\"");
        reveal_strlit("missing_rule");
        reveal_strlit("\"launch_rejected\"");
        reveal_strlit("launch_rejected");
        reveal_strlit("\"server_not_ready\"");
        reveal_strlit("server_not_ready");
        reveal_strlit("\"timeout\"");
        reveal_strlit("timeout");
        reveal_strlit("\"protocol_error\"");
        reveal_strlit("protocol_error");
        reveal_strlit("\"auth_failed\"");
        reveal_strlit("auth_failed");
        assert(r@ =~= code_literal(code));
    }
    r
}

/// The text of the frame that carries a response whose detail, if any, is `detail`.
pub open spec fn response_frame_text(code: IpcResponseCode, detail: Option<Seq<char>>) -> Seq<char> {
    "{\"version\":1,\"code\":"@ + code_literal(code) + match detail {
        Some(d) => ",\"detail\":"@ + json_string_literal(d),
        None => Seq::empty(),
    } + "}"@
}

/// Writes the frame that carries a response, its detail sanitized; writing cannot fail.
pub fn serialize_ipc_response_frame(response: &IpcResponse) -> (r: Result<Vec<u8>, IpcProtocolError>)
    ensures
        r matches Ok(bytes) && bytes@ == vstd::utf8::encode_utf8(response_frame_text(
            response.code,
            match response.detail {
                Some(d) => Some(sanitized_detail(d@)),
                None => None,
            },
        )),
{
    let head = concat("{\"version\":1,\"code\":", code_literal_text(response.code));
    let body = match &response.detail {
        Some(d) => {
            let clean = sanitize_detail(d.as_str());
            let quoted = json_quote(clean.as_str());
            let with_key = concat(head.as_str(), ",\"detail\":");
            concat(with_key.as_str(), quoted.as_str())
        },
        None => head,
    };
    let text = concat(body.as_str(), "}");
    assert(text@ =~= response_frame_text(
        response.code,
        match response.detail {
            Some(d) => Some(sanitized_detail(d@)),
            None => None,
        },
    ));
    Ok(text.as_str().as_bytes_vec())
}

// ---------------------------------------------------------------------------------------
// Startup: forward a rule request to a running instance, or become the primary instance

/// How long forwarding may keep retrying, how long one request may take, and how long to
/// wait between attempts, in milliseconds.
#[derive(Debug, Clone, Copy, PartialEq, Eq, Structural)]
pub struct ForwardingRetryPolicy {
    pub total_timeout_ms: u64,
    pub request_timeout_ms: u64,
    pub retry_sleep_ms: u64,
}

/// What startup comes to: the entry action, whether the forwarding runtime that was started
/// is kept, and a warning for the log.
#[derive(Debug, PartialEq, Eq)]
pub struct StartupOutcome {
    pub action: EntryAction,
    pub keeps_runtime: bool,
    pub warning: Option<String>,
}

/// Where startup forwarding stands.
#[derive(Debug)]
pub enum StartupForwarding {
    Resolving { intent: StartupIntent },
    Claiming { intent: StartupIntent },
    StartingRuntime { intent: StartupIntent },
    ReadingStartClock { intent: StartupIntent, request: Vec<u8> },
    Sending { intent: StartupIntent, request: Vec<u8>, deadline_ms: u64 },
    CheckingDeadline { intent: StartupIntent, request: Vec<u8>, deadline_ms: u64 },
    Sleeping { intent: StartupIntent, request: Vec<u8>, deadline_ms: u64 },
    Finished,
}

/// The outside work startup forwarding asks for next, or its outcome.
#[derive(Debug)]
pub enum StartupAction {
    ResolveEndpoint,
    TryClaimPrimaryGuard,
    StartForwardingRuntime,
    ReadClock,
    SendRequest { request: Vec<u8>, timeout_ms: u64 },
    Sleep { duration_ms: u64 },
    Finish(StartupOutcome),
}

/// What the outside work gave.
#[derive(Debug)]
pub enum StartupEvent {
    EndpointResolved(Result<(), String>),
    /// `Ok(true)` when this process now holds the primary guard, `Ok(false)` when another
    /// instance holds it.
    GuardClaimed(Result<bool, String>),
    RuntimeStarted(Result<(), String>),
    ClockRead(u64),
    RequestAnswered(Result<Vec<u8>, ForwardingClientError>),
    Slept,
}

/// Whether `event` answers the work that `state` waits for.
pub open spec fn event_fits(state: StartupForwarding, event: StartupEvent) -> bool {
    match state {
        StartupForwarding::Resolving { .. } => event is EndpointResolved,
        StartupForwarding::Claiming { .. } => event is GuardClaimed,
        StartupForwarding::StartingRuntime { .. } => event is RuntimeStarted,
        StartupForwarding::ReadingStartClock { .. } => event is ClockRead,
        StartupForwarding::Sending { .. } => event is RequestAnswered,
        StartupForwarding::CheckingDeadline { .. } => event is ClockRead,
        StartupForwarding::Sleeping { .. } => event is Slept,
        StartupForwarding::Finished => false,
    }
}

/// The warning when another instance holds the endpoint.
pub open spec fn endpoint_taken_warning() -> Seq<char> {
    "another instance owns the local shortcut endpoint"@
}

/// `a` finishes with `action`, no runtime kept and no warning.
pub open spec fn finishes_plainly(a: StartupAction, action: EntryAction) -> bool {
    a == StartupAction::Finish(StartupOutcome { action, keeps_runtime: false, warning: None })
}

/// The exit action for the bytes that answered a forwarded request.
pub open spec fn answer_action(intent: StartupIntent, answer: Seq<u8>) -> EntryAction {
    match response_frame_result(answer) {
        Ok(decoded) => entry_action_for(
            intent,
            ForwardingProbeResult::Forwarded(IpcResponse { code: decoded.0, detail: None }),
        ),
        Err(_) => entry_action_for(intent, ForwardingProbeResult::ProtocolError),
    }
}

/// The frame a rule request sends.
pub open spec fn request_bytes(intent: StartupIntent) -> Seq<u8> {
    match intent {
        StartupIntent::RunRule { group_id, rule_id } => vstd::utf8::encode_utf8(
            command_frame_text(group_id.0@, rule_id.0@),
        ),
        StartupIntent::NormalGui => Seq::empty(),
    }
}

/// One step of startup forwarding: from `state`, on `event`, to `next`, asking for `a`.
pub open spec fn startup_step(
    state: StartupForwarding,
    policy: ForwardingRetryPolicy,
    event: StartupEvent,
    next: StartupForwarding,
    a: StartupAction,
) -> bool {
    match state {
        StartupForwarding::Resolving { intent } => match event {
            StartupEvent::EndpointResolved(Err(e)) => next is Finished && if intent is NormalGui {
                a == StartupAction::Finish(StartupOutcome {
                    action: EntryAction::RunGui(StartupIntent::NormalGui),
                    keeps_runtime: false,
                    warning: Some(e),
                })
            } else {
                finishes_plainly(a, entry_action_for(intent, ForwardingProbeResult::AuthFailed))
            },
            _ => next == (StartupForwarding::Claiming { intent }) && a is TryClaimPrimaryGuard,
        },
        StartupForwarding::Claiming { intent } => match event {
            StartupEvent::GuardClaimed(Ok(true)) => next == (StartupForwarding::StartingRuntime { intent })
                && a is StartForwardingRuntime,
            StartupEvent::GuardClaimed(Ok(false)) => if intent is NormalGui {
                &&& next is Finished
                &&& a matches StartupAction::Finish(o)
                &&& o.action == EntryAction::RunGui(intent)
                &&& !o.keeps_runtime
                &&& o.warning matches Some(w)
                &&& w@ == endpoint_taken_warning()
            } else {
                next matches StartupForwarding::ReadingStartClock { intent: i, request }
                    && i == intent && request@ == request_bytes(intent) && a is ReadClock
            },
            StartupEvent::GuardClaimed(Err(e)) => next is Finished && if intent is NormalGui {
                a == StartupAction::Finish(StartupOutcome {
                    action: EntryAction::RunGui(intent),
                    keeps_runtime: false,
                    warning: Some(e),
                })
            } else {
                finishes_plainly(a, entry_action_for(intent, ForwardingProbeResult::AuthFailed))
            },
            _ => false,
        },
        StartupForwarding::StartingRuntime { intent } => next is Finished && match event {
            StartupEvent::RuntimeStarted(Ok(())) => a == StartupAction::Finish(StartupOutcome {
                action: entry_action_for(intent, ForwardingProbeResult::NoActiveInstance),
                keeps_runtime: true,
                warning: None,
            }),
            StartupEvent::RuntimeStarted(Err(e)) => if intent is NormalGui {
                a == StartupAction::Finish(StartupOutcome {
                    action: EntryAction::RunGui(intent),
                    keeps_runtime: false,
                    warning: Some(e),
                })
            } else {
                finishes_plainly(a, entry_action_for(intent, ForwardingProbeResult::AuthFailed))
            },
            _ => false,
        },
        StartupForwarding::ReadingStartClock { intent, request } => match event {
            StartupEvent::ClockRead(now) => {
                let deadline = if now + policy.total_timeout_ms <= u64::MAX {
                    (now + policy.total_timeout_ms) as u64
                } else {
                    u64::MAX
                };
                &&& next matches StartupForwarding::Sending { intent: i, request: q, deadline_ms }
                    && i == intent && q@ == request@ && deadline_ms == deadline
                &&& a matches StartupAction::SendRequest { request: q, timeout_ms } && q@ == request@
                    && timeout_ms == policy.request_timeout_ms
            },
            _ => false,
        },
        StartupForwarding::Sending { intent, request, deadline_ms } => match event {
            StartupEvent::RequestAnswered(Ok(answer)) => next is Finished && finishes_plainly(
                a,
                answer_action(intent, answer@),
            ),
            StartupEvent::RequestAnswered(Err(ForwardingClientError::NoServer))
            | StartupEvent::RequestAnswered(Err(ForwardingClientError::ServerNotReady)) => {
                &&& next matches StartupForwarding::CheckingDeadline { intent: i, request: q, deadline_ms: d }
                    && i == intent && q@ == request@ && d == deadline_ms
                &&& a is ReadClock
            },
            StartupEvent::RequestAnswered(Err(ForwardingClientError::Timeout)) => next is Finished
                && finishes_plainly(
                a,
                entry_action_for(
                    intent,
                    ForwardingProbeResult::Forwarded(IpcResponse { code: IpcResponseCode::Timeout, detail: None }),
                ),
            ),
            StartupEvent::RequestAnswered(Err(ForwardingClientError::SecurityRejected(_))) => next is Finished
                && finishes_plainly(a, entry_action_for(intent, ForwardingProbeResult::AuthFailed)),
            StartupEvent::RequestAnswered(Err(ForwardingClientError::Io(_))) => next is Finished
                && finishes_plainly(a, entry_action_for(intent, ForwardingProbeResult::ServerNotReady)),
            _ => false,
        },
        StartupForwarding::CheckingDeadline { intent, request, deadline_ms } => match event {
            StartupEvent::ClockRead(now) => if now < deadline_ms {
                &&& next matches StartupForwarding::Sleeping { intent: i, request: q, deadline_ms: d }
                    && i == intent && q@ == request@ && d == deadline_ms
                &&& a == StartupAction::Sleep { duration_ms: policy.retry_sleep_ms }
            } else {
                next is Finished && finishes_plainly(
                    a,
                    entry_action_for(intent, ForwardingProbeResult::ServerNotReady),
                )
            },
            _ => false,
        },
        StartupForwarding::Sleeping { intent, request, deadline_ms } => match event {
            StartupEvent::Slept => {
                &&& next matches StartupForwarding::Sending { intent: i, request: q, deadline_ms: d }
                    && i == intent && q@ == request@ && d == deadline_ms
                &&& a matches StartupAction::SendRequest { request: q, timeout_ms } && q@ == request@
                    && timeout_ms == policy.request_timeout_ms
            },
            _ => false,
        },
        StartupForwarding::Finished => false,
    }
}

/// Starts startup forwarding for `intent`: the endpoint is resolved first.
pub fn start_startup_forwarding(intent: StartupIntent) -> (r: (StartupForwarding, StartupAction))
    ensures
        r.0 == (StartupForwarding::Resolving { intent }),
        r.1 is ResolveEndpoint,
{
    (StartupForwarding::Resolving { intent }, StartupAction::ResolveEndpoint)
}

fn finish_plainly(action: EntryAction) -> (r: (StartupForwarding, StartupAction))
    ensures
        r.0 is Finished,
        finishes_plainly(r.1, action),
{
    (
        StartupForwarding::Finished,
        StartupAction::Finish(StartupOutcome { action, keeps_runtime: false, warning: None }),
    )
}

fn endpoint_taken_message() -> (r: String)
    ensures
        r@ == endpoint_taken_warning(),
{
    crate::text::owned("another instance owns the local shortcut endpoint")
}

fn rule_request(intent: &StartupIntent) -> (r: Vec<u8>)
    ensures
        r@ == request_bytes(*intent),
{
    match intent {
        StartupIntent::RunRule { group_id, rule_id } => {
            let command = IpcCommand::RunRule { group_id: group_id.clone(), rule_id: rule_id.clone() };
            match serialize_ipc_command_frame(&command) {
                Ok(bytes) => bytes,
                Err(_) => Vec::new(),
            }
        },
        StartupIntent::NormalGui => Vec::new(),
    }
}

/// Takes one step of startup forwarding: the plain GUI resolves the endpoint, tries to become
/// the primary instance and starts the forwarding runtime when it is, warning about what
/// failed; a rule request starts the runtime and runs the GUI when this process is the
/// primary instance, and otherwise sends the request to the running instance, retrying while
/// it is not ready until the policy's total time has passed, and exits with the code of the
/// answer (see `startup_step`).
pub fn step_startup_forwarding(
    state: StartupForwarding,
    policy: ForwardingRetryPolicy,
    event: StartupEvent,
) -> (r: (StartupForwarding, StartupAction))
    requires
        event_fits(state, event),
    ensures
        startup_step(state, policy, event, r.0, r.1),
{
    match state {
        StartupForwarding::Resolving { intent } => match event {
            StartupEvent::EndpointResolved(Err(e)) => {
                if let StartupIntent::NormalGui = intent {
                    (
                        StartupForwarding::Finished,
                        StartupAction::Finish(StartupOutcome {
                            action: EntryAction::RunGui(StartupIntent::NormalGui),
                            keeps_runtime: false,
                            warning: Some(e),
                        }),
                    )
                } else {
                    finish_plainly(decide_entry_action(intent, ForwardingProbeResult::AuthFailed))
                }
            },
            _ => (StartupForwarding::Claiming { intent }, StartupAction::TryClaimPrimaryGuard),
        },
        StartupForwarding::Claiming { intent } => match event {
            StartupEvent::GuardClaimed(Ok(true)) => (
                StartupForwarding::StartingRuntime { intent },
                StartupAction::StartForwardingRuntime,
            ),
            StartupEvent::GuardClaimed(Ok(false)) => {
                if let StartupIntent::NormalGui = intent {
                    (
                        StartupForwarding::Finished,
                        StartupAction::Finish(StartupOutcome {
                            action: EntryAction::RunGui(intent),
                            keeps_runtime: false,
                            warning: Some(endpoint_taken_message()),
                        }),
                    )
                } else {
                    let request = rule_request(&intent);
                    (StartupForwarding::ReadingStartClock { intent, request }, StartupAction::ReadClock)
                }
            },
            StartupEvent::GuardClaimed(Err(e)) => {
                if let StartupIntent::NormalGui = intent {
                    (
                        StartupForwarding::Finished,
                        StartupAction::Finish(StartupOutcome {
                            action: EntryAction::RunGui(intent),
                            keeps_runtime: false,
                            warning: Some(e),
                        }),
                    )
                } else {
                    finish_plainly(decide_entry_action(intent, ForwardingProbeResult::AuthFailed))
                }
            },
            _ => (StartupForwarding::Finished, StartupAction::ResolveEndpoint),
        },
        StartupForwarding::StartingRuntime { intent } => match event {
            StartupEvent::RuntimeStarted(Ok(())) => (
                StartupForwarding::Finished,
                StartupAction::Finish(StartupOutcome {
                    action: decide_entry_action(intent, ForwardingProbeResult::NoActiveInstance),
                    keeps_runtime: true,
                    warning: None,
                }),
            ),
            StartupEvent::RuntimeStarted(Err(e)) => {
                if let StartupIntent::NormalGui = intent {
                    (
                        StartupForwarding::Finished,
                        StartupAction::Finish(StartupOutcome {
                            action: EntryAction::RunGui(intent),
                            keeps_runtime: false,
                            warning: Some(e),
                        }),
                    )
                } else {
                    finish_plainly(decide_entry_action(intent, ForwardingProbeResult::AuthFailed))
                }
            },
            _ => (StartupForwarding::Finished, StartupAction::ResolveEndpoint),
        },
        StartupForwarding::ReadingStartClock { intent, request } => match event {
            StartupEvent::ClockRead(now) => {
                let deadline_ms = now.saturating_add(policy.total_timeout_ms);
                let send = crate::text::clone_bytes(&request);
                (
                    StartupForwarding::Sending { intent, request, deadline_ms },
                    StartupAction::SendRequest { request: send, timeout_ms: policy.request_timeout_ms },
                )
            },
            _ => (StartupForwarding::Finished, StartupAction::ResolveEndpoint),
        },
        StartupForwarding::Sending { intent, request, deadline_ms } => match event {
            StartupEvent::RequestAnswered(Ok(answer)) => {
                let probe = match parse_ipc_response_frame(answer.as_slice()) {
                    Ok(response) => ForwardingProbeResult::Forwarded(
                        IpcResponse { code: response.code, detail: None },
                    ),
                    Err(_) => ForwardingProbeResult::ProtocolError,
                };
                finish_plainly(decide_entry_action(intent, probe))
            },
            StartupEvent::RequestAnswered(Err(ForwardingClientError::NoServer))
            | StartupEvent::RequestAnswered(Err(ForwardingClientError::ServerNotReady)) => (
                StartupForwarding::CheckingDeadline { intent, request, deadline_ms },
                StartupAction::ReadClock,
            ),
            StartupEvent::RequestAnswered(Err(ForwardingClientError::Timeout)) => finish_plainly(
                decide_entry_action(
                    intent,
                    ForwardingProbeResult::Forwarded(IpcResponse { code: IpcResponseCode::Timeout, detail: None }),
                ),
            ),
            StartupEvent::RequestAnswered(Err(ForwardingClientError::SecurityRejected(_))) => finish_plainly(
                decide_entry_action(intent, ForwardingProbeResult::AuthFailed),
            ),
            StartupEvent::RequestAnswered(Err(ForwardingClientError::Io(_))) => finish_plainly(
                decide_entry_action(intent, ForwardingProbeResult::ServerNotReady),
            ),
            _ => (StartupForwarding::Finished, StartupAction::ResolveEndpoint),
        },
        StartupForwarding::CheckingDeadline { intent, request, deadline_ms } => match event {
            StartupEvent::ClockRead(now) => {
                if now < deadline_ms {
                    (
                        StartupForwarding::Sleeping { intent, request, deadline_ms },
                        StartupAction::Sleep { duration_ms: policy.retry_sleep_ms },
                    )
                } else {
                    finish_plainly(decide_entry_action(intent, ForwardingProbeResult::ServerNotReady))
                }
            },
            _ => (StartupForwarding::Finished, StartupAction::ResolveEndpoint),
        },
        StartupForwarding::Sleeping { intent, request, deadline_ms } => match event {
            StartupEvent::Slept => {
                let send = crate::text::clone_bytes(&request);
                (
                    StartupForwarding::Sending { intent, request, deadline_ms },
                    StartupAction::SendRequest { request: send, timeout_ms: policy.request_timeout_ms },
                )
            },
            _ => (StartupForwarding::Finished, StartupAction::ResolveEndpoint),
        },
        StartupForwarding::Finished => (StartupForwarding::Finished, StartupAction::ResolveEndpoint),
    }
}

/// A state of startup forwarding for the plain GUI.
pub open spec fn is_normal_gui_state(state: StartupForwarding) -> bool {
    match state {
        StartupForwarding::Resolving { intent } => intent is NormalGui,
        StartupForwarding::Claiming { intent } => intent is NormalGui,
        StartupForwarding::StartingRuntime { intent } => intent is NormalGui,
        StartupForwarding::Finished => true,
        _ => false,
    }
}

/// The plain GUI never forwards, exits or retries: every step from one of its states stays
/// among them, never reads the clock, sends or sleeps, and finishes by running the GUI.
pub proof fn lemma_normal_gui_never_forwards(
    state: StartupForwarding,
    policy: ForwardingRetryPolicy,
    event: StartupEvent,
    next: StartupForwarding,
    a: StartupAction,
)
    requires
        is_normal_gui_state(state),
        event_fits(state, event),
        startup_step(state, policy, event, next, a),
    ensures
        is_normal_gui_state(next),
        !(a is ReadClock),
        !(a is SendRequest),
        !(a is Sleep),
        a matches StartupAction::Finish(o) ==> o.action == EntryAction::RunGui(StartupIntent::NormalGui),
{
}

/// Startup keeps the forwarding runtime only when it goes on to run the GUI itself.
pub proof fn lemma_runtime_kept_only_with_gui(
    state: StartupForwarding,
    policy: ForwardingRetryPolicy,
    event: StartupEvent,
    next: StartupForwarding,
    a: StartupAction,
)
    requires
        event_fits(state, event),
        startup_step(state, policy, event, next, a),
    ensures
        a matches StartupAction::Finish(o) ==> (o.keeps_runtime ==> o.action is RunGui),
{
}

} // verus!
