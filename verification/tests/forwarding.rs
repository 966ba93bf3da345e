use cpu_affinity_tool::forwarding::{
    decide_entry_action, forwarding_exit_code, parse_ipc_command_frame, parse_ipc_response_frame,
    run_rule_outcome_to_response, sanitize_detail, serialize_ipc_command_frame,
    serialize_ipc_response_frame, start_startup_forwarding, step_startup_forwarding, EntryAction,
    ForwardingClientError, ForwardingProbeResult, ForwardingRetryPolicy, IpcCommand,
    IpcProtocolError, IpcResponse, IpcResponseCode, RunRuleOutcome, StartupAction, StartupEvent,
    StartupIntent, StartupOutcome, EXIT_CLI_PARSE_ERROR, EXIT_GUI_STARTUP_ERROR,
};
use cpu_affinity_tool::ids::{GroupId, RuleId};
use std::collections::VecDeque;

fn run_rule_intent() -> StartupIntent {
    StartupIntent::RunRule {
        group_id: GroupId("group-1".to_string()),
        rule_id: RuleId("rule-1".to_string()),
    }
}

#[test]
fn test_ipc_command_accepts_valid_run_rule_frame() {
    let frame = br#"{"version":1,"command":{"type":"run_rule","group_id":"group-1","rule_id":"rule-1"}}"#;

    assert_eq!(
        parse_ipc_command_frame(frame),
        Ok(IpcCommand::RunRule {
            group_id: GroupId("group-1".to_string()),
            rule_id: RuleId("rule-1".to_string())
        })
    );
}

#[test]
fn test_ipc_command_rejects_unknown_fields_and_versions() {
    let unknown_field =
        br#"{"version":1,"command":{"type":"run_rule","group_id":"group-1","rule_id":"rule-1"},"extra":true}"#;
    let unsupported_version =
        br#"{"version":2,"command":{"type":"run_rule","group_id":"group-1","rule_id":"rule-1"}}"#;

    assert_eq!(
        parse_ipc_command_frame(unknown_field),
        Err(IpcProtocolError::InvalidJson)
    );
    assert_eq!(
        parse_ipc_command_frame(unsupported_version),
        Err(IpcProtocolError::UnsupportedVersion)
    );
}

#[test]
fn test_ipc_command_serialization_roundtrips_run_rule_frame() {
    let command = IpcCommand::RunRule {
        group_id: GroupId("group-1".to_string()),
        rule_id: RuleId("rule-1".to_string()),
    };

    let frame = serialize_ipc_command_frame(&command).unwrap();

    assert_eq!(parse_ipc_command_frame(&frame), Ok(command));
}

#[test]
fn test_ipc_command_rejects_invalid_ids_and_oversized_frames() {
    let invalid_id =
        br#"{"version":1,"command":{"type":"run_rule","group_id":"group 1","rule_id":"rule-1"}}"#;
    let oversized = vec![b' '; 4097];

    assert_eq!(
        parse_ipc_command_frame(invalid_id),
        Err(IpcProtocolError::InvalidId)
    );
    assert_eq!(
        parse_ipc_command_frame(&oversized),
        Err(IpcProtocolError::OversizedFrame)
    );
}

#[test]
fn test_run_rule_outcome_maps_to_stable_response_codes_and_exit_codes() {
    let accepted = run_rule_outcome_to_response(RunRuleOutcome::Accepted);
    let missing_group = run_rule_outcome_to_response(RunRuleOutcome::MissingGroup);
    let missing_rule = run_rule_outcome_to_response(RunRuleOutcome::MissingRule);
    let rejected = run_rule_outcome_to_response(RunRuleOutcome::LaunchRejected(
        "line 1\r\nline 2".to_string(),
    ));

    assert_eq!(accepted.code, IpcResponseCode::Accepted);
    assert_eq!(forwarding_exit_code(&accepted), 0);
    assert_eq!(missing_group.code, IpcResponseCode::MissingGroup);
    assert_ne!(forwarding_exit_code(&missing_group), 0);
    assert_eq!(missing_rule.code, IpcResponseCode::MissingRule);
    assert_ne!(forwarding_exit_code(&missing_rule), 0);
    assert_eq!(rejected.code, IpcResponseCode::LaunchRejected);
    assert_eq!(rejected.detail.as_deref(), Some("line 1 line 2"));
    assert_ne!(forwarding_exit_code(&rejected), 0);
}

#[test]
fn test_ipc_response_serialization_roundtrips_and_rejects_unknown_codes() {
    let response = IpcResponse {
        code: IpcResponseCode::MissingRule,
        detail: Some("line 1\r\nline 2".to_string()),
    };

    let frame = serialize_ipc_response_frame(&response).unwrap();

    assert_eq!(
        parse_ipc_response_frame(&frame),
        Ok(IpcResponse {
            code: IpcResponseCode::MissingRule,
            detail: Some("line 1 line 2".to_string())
        })
    );

    assert_eq!(
        parse_ipc_response_frame(br#"{"version":1,"code":"bogus"}"#),
        Err(IpcProtocolError::InvalidJson)
    );
    assert_eq!(
        parse_ipc_response_frame(br#"{"version":1,"code":"accepted","extra":true}"#),
        Err(IpcProtocolError::InvalidJson)
    );
}

#[test]
fn test_startup_decision_never_forwards_normal_gui() {
    assert_eq!(
        decide_entry_action(
            StartupIntent::NormalGui,
            ForwardingProbeResult::Forwarded(IpcResponse {
                code: IpcResponseCode::Accepted,
                detail: None
            })
        ),
        EntryAction::RunGui(StartupIntent::NormalGui)
    );
}

#[test]
fn test_startup_decision_for_run_rule_forwards_or_falls_back() {
    let intent = run_rule_intent();

    assert_eq!(
        decide_entry_action(
            intent.clone(),
            ForwardingProbeResult::Forwarded(IpcResponse {
                code: IpcResponseCode::Accepted,
                detail: None
            })
        ),
        EntryAction::Exit(0)
    );
    assert_eq!(
        decide_entry_action(intent.clone(), ForwardingProbeResult::NoActiveInstance),
        EntryAction::RunGui(intent.clone())
    );
    assert!(matches!(
        decide_entry_action(intent.clone(), ForwardingProbeResult::ServerNotReady),
        EntryAction::Exit(code) if code != 0
    ));
    assert!(matches!(
        decide_entry_action(intent.clone(), ForwardingProbeResult::AuthFailed),
        EntryAction::Exit(code) if code != 0
    ));
}

#[test]
fn test_forwarding_error_responses_use_distinct_nonzero_exit_codes() {
    let responses = [
        IpcResponse {
            code: IpcResponseCode::ServerNotReady,
            detail: None,
        },
        IpcResponse {
            code: IpcResponseCode::Timeout,
            detail: None,
        },
        IpcResponse {
            code: IpcResponseCode::ProtocolError,
            detail: None,
        },
        IpcResponse {
            code: IpcResponseCode::AuthFailed,
            detail: None,
        },
    ];

    let exit_codes = responses
        .iter()
        .map(forwarding_exit_code)
        .collect::<Vec<_>>();

    assert!(exit_codes.iter().all(|code| *code != 0));
    assert_eq!(exit_codes.len(), 4);
    for (index, code) in exit_codes.iter().enumerate() {
        assert!(!exit_codes[..index].contains(code));
    }

    assert!(matches!(
        decide_entry_action(run_rule_intent(), ForwardingProbeResult::ProtocolError),
        EntryAction::Exit(code) if code != 0
    ));
}

#[derive(Debug, Clone, PartialEq, Eq)]
enum StartupCall {
    ResolveEndpoint,
    TryClaimPrimaryGuard,
    StartForwardingRuntime,
    SendRequest(u64),
    Sleep(u64),
}

enum FakeSendOutcome {
    Response(Vec<u8>),
    Error(ForwardingClientError),
}

struct FakeStartupPlatform {
    calls: Vec<StartupCall>,
    endpoint_result: Result<(), String>,
    guard_result: Result<bool, String>,
    server_result: Result<(), String>,
    send_outcomes: VecDeque<FakeSendOutcome>,
    sent_commands: Vec<IpcCommand>,
    now_ms: u64,
}

impl FakeStartupPlatform {
    fn primary() -> Self {
        Self {
            calls: Vec::new(),
            endpoint_result: Ok(()),
            guard_result: Ok(true),
            server_result: Ok(()),
            send_outcomes: VecDeque::new(),
            sent_commands: Vec::new(),
            now_ms: 0,
        }
    }

    fn secondary(send_outcomes: Vec<FakeSendOutcome>) -> Self {
        Self {
            calls: Vec::new(),
            endpoint_result: Ok(()),
            guard_result: Ok(false),
            server_result: Ok(()),
            send_outcomes: send_outcomes.into(),
            sent_commands: Vec::new(),
            now_ms: 0,
        }
    }

    fn perform(&mut self, action: StartupAction) -> Result<StartupEvent, StartupOutcome> {
        match action {
            StartupAction::ResolveEndpoint => {
                self.calls.push(StartupCall::ResolveEndpoint);
                Ok(StartupEvent::EndpointResolved(self.endpoint_result.clone()))
            }
            StartupAction::TryClaimPrimaryGuard => {
                self.calls.push(StartupCall::TryClaimPrimaryGuard);
                Ok(StartupEvent::GuardClaimed(self.guard_result.clone()))
            }
            StartupAction::StartForwardingRuntime => {
                self.calls.push(StartupCall::StartForwardingRuntime);
                Ok(StartupEvent::RuntimeStarted(self.server_result.clone()))
            }
            StartupAction::ReadClock => Ok(StartupEvent::ClockRead(self.now_ms)),
            StartupAction::SendRequest {
                request,
                timeout_ms,
            } => {
                self.calls.push(StartupCall::SendRequest(timeout_ms));
                self.sent_commands
                    .push(parse_ipc_command_frame(&request).unwrap());
                let answer = match self.send_outcomes.pop_front() {
                    Some(FakeSendOutcome::Response(response)) => Ok(response),
                    Some(FakeSendOutcome::Error(error)) => Err(error),
                    None => Err(ForwardingClientError::NoServer),
                };
                Ok(StartupEvent::RequestAnswered(answer))
            }
            StartupAction::Sleep { duration_ms } => {
                self.calls.push(StartupCall::Sleep(duration_ms));
                self.now_ms += duration_ms;
                Ok(StartupEvent::Slept)
            }
            StartupAction::Finish(outcome) => Err(outcome),
        }
    }
}

fn short_retry_policy() -> ForwardingRetryPolicy {
    ForwardingRetryPolicy {
        total_timeout_ms: 250,
        request_timeout_ms: 50,
        retry_sleep_ms: 100,
    }
}

fn response_bytes(code: IpcResponseCode) -> Vec<u8> {
    serialize_ipc_response_frame(&IpcResponse { code, detail: None }).unwrap()
}

fn prepare_with_fake(intent: StartupIntent, platform: &mut FakeStartupPlatform) -> StartupOutcome {
    let policy = short_retry_policy();
    let (mut state, mut action) = start_startup_forwarding(intent);
    loop {
        match platform.perform(action) {
            Ok(event) => {
                let (next, next_action) = step_startup_forwarding(state, policy, event);
                state = next;
                action = next_action;
            }
            Err(outcome) => return outcome,
        }
    }
}

#[test]
fn test_startup_boundary_normal_gui_never_forwards_exits_or_retries() {
    let mut platform = FakeStartupPlatform::primary();
    platform.guard_result = Ok(false);

    let prepared = prepare_with_fake(StartupIntent::NormalGui, &mut platform);

    assert_eq!(
        prepared.action,
        EntryAction::RunGui(StartupIntent::NormalGui)
    );
    assert!(!prepared.keeps_runtime);
    assert_eq!(
        prepared.warning.as_deref(),
        Some("another instance owns the local shortcut endpoint")
    );
    assert_eq!(
        platform.calls,
        vec![
            StartupCall::ResolveEndpoint,
            StartupCall::TryClaimPrimaryGuard
        ]
    );
    assert!(platform.sent_commands.is_empty());
}

#[test]
fn test_startup_boundary_run_rule_primary_cold_starts_gui_with_server() {
    let intent = run_rule_intent();
    let mut platform = FakeStartupPlatform::primary();

    let prepared = prepare_with_fake(intent.clone(), &mut platform);

    assert_eq!(prepared.action, EntryAction::RunGui(intent));
    assert!(prepared.keeps_runtime);
    assert_eq!(prepared.warning, None);
    assert_eq!(
        platform.calls,
        vec![
            StartupCall::ResolveEndpoint,
            StartupCall::TryClaimPrimaryGuard,
            StartupCall::StartForwardingRuntime
        ]
    );
    assert!(platform.sent_commands.is_empty());
}

#[test]
fn test_startup_boundary_secondary_forwarded_responses_use_exact_exit_codes() {
    let cases = [
        (IpcResponseCode::Accepted, 0),
        (IpcResponseCode::MissingGroup, 20),
        (IpcResponseCode::MissingRule, 21),
        (IpcResponseCode::LaunchRejected, 22),
    ];

    for (response_code, expected_exit_code) in cases {
        let intent = run_rule_intent();
        let mut platform = FakeStartupPlatform::secondary(vec![FakeSendOutcome::Response(
            response_bytes(response_code),
        )]);

        let prepared = prepare_with_fake(intent.clone(), &mut platform);

        assert_eq!(prepared.action, EntryAction::Exit(expected_exit_code));
        assert!(!prepared.keeps_runtime);
        assert_eq!(
            platform.sent_commands,
            vec![IpcCommand::RunRule {
                group_id: GroupId("group-1".to_string()),
                rule_id: RuleId("rule-1".to_string())
            }]
        );
    }
}

#[test]
fn test_startup_boundary_guard_present_pipe_absent_retries_then_exits_23() {
    let mut platform = FakeStartupPlatform::secondary(vec![
        FakeSendOutcome::Error(ForwardingClientError::NoServer),
        FakeSendOutcome::Error(ForwardingClientError::ServerNotReady),
        FakeSendOutcome::Error(ForwardingClientError::NoServer),
    ]);

    let prepared = prepare_with_fake(run_rule_intent(), &mut platform);

    assert_eq!(prepared.action, EntryAction::Exit(23));
    assert_eq!(
        platform.calls,
        vec![
            StartupCall::ResolveEndpoint,
            StartupCall::TryClaimPrimaryGuard,
            StartupCall::SendRequest(50),
            StartupCall::Sleep(100),
            StartupCall::SendRequest(50),
            StartupCall::Sleep(100),
            StartupCall::SendRequest(50),
            StartupCall::Sleep(100),
            StartupCall::SendRequest(50),
        ]
    );
}

#[test]
fn test_startup_boundary_timeout_protocol_and_auth_use_exact_exit_codes() {
    let cases = vec![
        (
            FakeSendOutcome::Error(ForwardingClientError::Timeout),
            EntryAction::Exit(24),
        ),
        (
            FakeSendOutcome::Response(b"not-json".to_vec()),
            EntryAction::Exit(25),
        ),
        (
            FakeSendOutcome::Error(ForwardingClientError::SecurityRejected(
                "denied".to_string(),
            )),
            EntryAction::Exit(26),
        ),
    ];

    for (send_outcome, expected_action) in cases {
        let mut platform = FakeStartupPlatform::secondary(vec![send_outcome]);

        let prepared = prepare_with_fake(run_rule_intent(), &mut platform);

        assert_eq!(prepared.action, expected_action);
    }
}

#[test]
fn test_startup_boundary_parse_and_gui_error_exit_codes_stay_distinct() {
    assert_eq!(EXIT_CLI_PARSE_ERROR, 2);
    assert_eq!(EXIT_GUI_STARTUP_ERROR, 1);

    let forwarding_exit_codes = [
        IpcResponseCode::Accepted,
        IpcResponseCode::MissingGroup,
        IpcResponseCode::MissingRule,
        IpcResponseCode::LaunchRejected,
        IpcResponseCode::ServerNotReady,
        IpcResponseCode::Timeout,
        IpcResponseCode::ProtocolError,
        IpcResponseCode::AuthFailed,
    ]
    .map(|code| forwarding_exit_code(&IpcResponse { code, detail: None }));

    assert!(!forwarding_exit_codes.contains(&EXIT_CLI_PARSE_ERROR));
    assert!(!forwarding_exit_codes.contains(&EXIT_GUI_STARTUP_ERROR));
}

// Further cases of this library.

#[test]
fn command_frame_bytes_are_the_compact_wire_form() {
    let command = IpcCommand::RunRule {
        group_id: GroupId("g\"1".to_string()),
        rule_id: RuleId("r\n1".to_string()),
    };
    let frame = serialize_ipc_command_frame(&command).unwrap();
    assert_eq!(
        String::from_utf8(frame).unwrap(),
        r#"{"version":1,"command":{"type":"run_rule","group_id":"g\"1","rule_id":"r\n1"}}"#
    );
}

#[test]
fn response_frame_omits_absent_detail_and_accepts_map_form_code() {
    let frame = serialize_ipc_response_frame(&IpcResponse {
        code: IpcResponseCode::ServerNotReady,
        detail: None,
    })
    .unwrap();
    assert_eq!(
        String::from_utf8(frame).unwrap(),
        r#"{"version":1,"code":"server_not_ready"}"#
    );
    assert_eq!(
        parse_ipc_response_frame(br#"{"code":{"timeout":null},"version":1,"detail":null}"#),
        Ok(IpcResponse {
            code: IpcResponseCode::Timeout,
            detail: None
        })
    );
    assert_eq!(
        parse_ipc_response_frame(br#"{"version":2,"code":"accepted"}"#),
        Err(IpcProtocolError::UnsupportedVersion)
    );
    assert_eq!(
        parse_ipc_response_frame(&[0xff, 0xfe]),
        Err(IpcProtocolError::InvalidUtf8)
    );
}

#[test]
fn command_frame_rejects_wrong_shapes() {
    assert_eq!(
        parse_ipc_command_frame(br#"{"version":1}"#),
        Err(IpcProtocolError::InvalidJson)
    );
    assert_eq!(
        parse_ipc_command_frame(
            br#"{"version":70000,"command":{"type":"run_rule","group_id":"a","rule_id":"b"}}"#
        ),
        Err(IpcProtocolError::InvalidJson)
    );
    assert_eq!(
        parse_ipc_command_frame(
            br#"{"version":1,"command":{"type":"stop","group_id":"a","rule_id":"b"}}"#
        ),
        Err(IpcProtocolError::InvalidJson)
    );
    assert_eq!(
        parse_ipc_command_frame(
            br#"{"command":{"rule_id":"b","group_id":"a","type":"run_rule"},"version":1}"#
        ),
        Ok(IpcCommand::RunRule {
            group_id: GroupId("a".to_string()),
            rule_id: RuleId("b".to_string())
        })
    );
}

#[test]
fn sanitized_detail_collapses_whitespace_and_is_capped() {
    assert_eq!(sanitize_detail("  a \t b\n\nc  "), "a b c");
    assert_eq!(sanitize_detail(""), "");
    let long = "x".repeat(300);
    assert_eq!(sanitize_detail(&long).chars().count(), 240);
}

#[test]
fn resolve_failure_warns_for_gui_and_refuses_rule_requests() {
    let mut platform = FakeStartupPlatform::primary();
    platform.endpoint_result = Err("no endpoint".to_string());
    let prepared = prepare_with_fake(StartupIntent::NormalGui, &mut platform);
    assert_eq!(prepared.action, EntryAction::RunGui(StartupIntent::NormalGui));
    assert_eq!(prepared.warning.as_deref(), Some("no endpoint"));

    let mut platform = FakeStartupPlatform::primary();
    platform.endpoint_result = Err("no endpoint".to_string());
    let prepared = prepare_with_fake(run_rule_intent(), &mut platform);
    assert_eq!(prepared.action, EntryAction::Exit(26));
    assert_eq!(prepared.warning, None);
}
