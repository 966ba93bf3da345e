use cpu_affinity_tool::ipc::{
    client_error_from_pipe_io, client_open_error_from_code, client_open_failure,
    client_open_flags, client_response_error_from_pipe_io, local_ipc_endpoint_for,
    pipe_io_error_from_code, server_open_mode, server_pipe_mode, stable_hash,
    LocalIpcClientError, PipeIoError, ERROR_ACCESS_DENIED, ERROR_BROKEN_PIPE,
    ERROR_FILE_NOT_FOUND, ERROR_MORE_DATA, ERROR_PIPE_BUSY, FILE_FLAG_FIRST_PIPE_INSTANCE,
    FILE_FLAG_OVERLAPPED, OPEN_CLIENT_TOKEN_AS_SELF, PIPE_MAX_INSTANCES,
    PIPE_REJECT_REMOTE_CLIENTS, SECURITY_IDENTIFICATION, SECURITY_SQOS_PRESENT, WAIT_TIMEOUT,
};

#[test]
fn pipe_busy_open_error_maps_to_server_not_ready() {
    assert_eq!(
        client_open_error_from_code(ERROR_PIPE_BUSY, "busy".to_string()),
        LocalIpcClientError::ServerNotReady
    );
}

#[test]
fn ipc_security_and_lifecycle_flags_are_locked_down() {
    assert_ne!(
        server_open_mode() & FILE_FLAG_FIRST_PIPE_INSTANCE,
        0,
        "initial listener must prove first pipe ownership"
    );
    assert_eq!(
        PIPE_MAX_INSTANCES, 1,
        "server must not allow additional named-pipe server instances"
    );
    assert_ne!(
        server_open_mode() & FILE_FLAG_OVERLAPPED,
        0,
        "server pipe handles must use overlapped I/O"
    );
    assert_ne!(
        server_pipe_mode() & PIPE_REJECT_REMOTE_CLIENTS,
        0,
        "server pipe must reject remote clients"
    );
    assert_ne!(
        client_open_flags() & FILE_FLAG_OVERLAPPED,
        0,
        "client pipe handle must use overlapped I/O"
    );
    assert_ne!(
        client_open_flags() & SECURITY_SQOS_PRESENT,
        0,
        "client must explicitly set pipe SQOS"
    );
    assert_ne!(
        client_open_flags() & SECURITY_IDENTIFICATION,
        0,
        "client SQOS should limit server impersonation to identification"
    );
    assert!(
        OPEN_CLIENT_TOKEN_AS_SELF,
        "OpenThreadToken must use OpenAsSelf for SecurityIdentification clients"
    );
}

// Further cases of this library.

#[test]
fn pipe_flags_have_their_win32_values() {
    assert_eq!(server_open_mode(), 0x4008_0003);
    assert_eq!(server_pipe_mode(), 0xe);
    assert_eq!(client_open_flags(), 0x4019_0080);
}

#[test]
fn open_errors_are_classified() {
    assert_eq!(client_open_failure(ERROR_FILE_NOT_FOUND), LocalIpcClientError::NoServer);
    assert_eq!(client_open_failure(ERROR_BROKEN_PIPE), LocalIpcClientError::ServerNotReady);
    assert_eq!(
        client_open_failure(ERROR_ACCESS_DENIED),
        LocalIpcClientError::SecurityRejected("access denied while opening local IPC pipe".to_string())
    );
    assert_eq!(
        client_open_failure(87),
        LocalIpcClientError::Io("failed to open local IPC pipe: WIN32_ERROR(87)".to_string())
    );
    assert_eq!(
        client_open_error_from_code(ERROR_FILE_NOT_FOUND, "gone".to_string()),
        LocalIpcClientError::Io("gone".to_string())
    );
}

#[test]
fn pipe_io_errors_are_classified() {
    assert_eq!(pipe_io_error_from_code(ERROR_BROKEN_PIPE, "read"), PipeIoError::BrokenPipe);
    assert_eq!(pipe_io_error_from_code(ERROR_MORE_DATA, "read"), PipeIoError::FrameTooLarge);
    assert_eq!(pipe_io_error_from_code(WAIT_TIMEOUT, "read"), PipeIoError::Timeout);
    assert_eq!(
        pipe_io_error_from_code(6, "write"),
        PipeIoError::Io("write: WIN32_ERROR(6)".to_string())
    );
    assert_eq!(client_error_from_pipe_io(PipeIoError::Shutdown), LocalIpcClientError::ServerNotReady);
    assert_eq!(
        client_error_from_pipe_io(PipeIoError::FrameTooLarge),
        LocalIpcClientError::Io("local IPC transport frame exceeded read limit".to_string())
    );
    assert_eq!(
        client_response_error_from_pipe_io(PipeIoError::BrokenPipe),
        LocalIpcClientError::SecurityRejected(
            "local IPC server closed the pipe before sending a response".to_string()
        )
    );
    assert_eq!(client_response_error_from_pipe_io(PipeIoError::Timeout), LocalIpcClientError::Timeout);
}

#[test]
fn stable_hash_is_fnv1a() {
    assert_eq!(stable_hash(""), 0xcbf2_9ce4_8422_2325);
    assert_eq!(stable_hash("a"), 0xaf63_dc4c_8601_ec8c);
}

#[test]
fn endpoint_names_carry_the_identity_hash() {
    let endpoint = local_ipc_endpoint_for("S-1-5-21", 1, r"C:\Tools\tool.exe");
    let identity = stable_hash(r"S-1-5-21:1:C:\Tools\tool.exe");
    assert_eq!(endpoint.pipe_name, format!(r"\\.\pipe\cpu-affinity-tool-{identity}"));
    assert_eq!(endpoint.mutex_name, format!(r"Local\cpu-affinity-tool-{identity}-primary"));
}

use cpu_affinity_tool::ipc::{
    check_request_size, server_loop_top, server_step, should_retry_request, timeout_response_bytes,
    ClientAction, ClientEvent, ClientExchange, ResponseWait, ServerAction, ServerEvent, ServerState,
    MAX_FRAME_BYTES,
};

/// Runs the server's loop over scripted pipe results and records what it asked for.
fn run_server(events: Vec<ServerEvent>, shutdown_after: usize) -> Vec<ServerAction> {
    let mut actions = Vec::new();
    let (mut state, action) = server_loop_top(false);
    actions.push(action);
    for (i, event) in events.into_iter().enumerate() {
        let (next, action) = server_step(state, event, i + 1 >= shutdown_after);
        state = next;
        let stop = matches!(action, ServerAction::Stop);
        actions.push(action);
        if stop {
            break;
        }
    }
    actions
}

#[test]
fn server_serves_one_request_and_waits_for_the_next_client() {
    let actions = run_server(
        vec![
            ServerEvent::Connected(Ok(())),
            ServerEvent::SessionChecked(true),
            ServerEvent::ReadDone(Ok(b"ping".to_vec())),
            ServerEvent::UserChecked(true),
            ServerEvent::Forwarded(true),
            ServerEvent::Response(ResponseWait::Received(b"pong".to_vec())),
            ServerEvent::Written,
            ServerEvent::Disconnected,
        ],
        usize::MAX,
    );
    assert!(matches!(actions[0], ServerAction::Connect));
    assert!(matches!(actions[1], ServerAction::CheckSession));
    assert!(matches!(actions[2], ServerAction::Read { max_bytes: MAX_FRAME_BYTES, timeout_ms: 1000 }));
    assert!(matches!(actions[3], ServerAction::CheckUser));
    assert!(matches!(&actions[4], ServerAction::Forward(bytes) if bytes.as_slice() == b"ping"));
    assert!(matches!(actions[5], ServerAction::AwaitResponse { timeout_ms: 5000 }));
    assert!(matches!(&actions[6], ServerAction::Write { response, timeout_ms: 5000 } if response.as_slice() == b"pong"));
    assert!(matches!(actions[7], ServerAction::Disconnect));
    assert!(matches!(actions[8], ServerAction::Connect));
}

#[test]
fn oversized_transport_frame_is_not_dispatched() {
    let actions = run_server(
        vec![
            ServerEvent::Connected(Ok(())),
            ServerEvent::SessionChecked(true),
            ServerEvent::ReadDone(Err(PipeIoError::FrameTooLarge)),
            ServerEvent::Disconnected,
        ],
        usize::MAX,
    );
    assert!(!actions.iter().any(|a| matches!(a, ServerAction::Forward(_))));
    assert!(matches!(actions[3], ServerAction::Disconnect));
    assert!(matches!(actions[4], ServerAction::Connect));
}

#[test]
fn server_drops_foreign_and_empty_clients() {
    let (state, action) = server_step(ServerState::CheckingSession, ServerEvent::SessionChecked(false), false);
    assert!(matches!(state, ServerState::Disconnecting { stop: false }));
    assert!(matches!(action, ServerAction::Disconnect));
    let (state, _) = server_step(ServerState::Reading, ServerEvent::ReadDone(Ok(Vec::new())), false);
    assert!(matches!(state, ServerState::Disconnecting { stop: false }));
    let (state, _) = server_step(ServerState::CheckingUser(b"x".to_vec()), ServerEvent::UserChecked(false), false);
    assert!(matches!(state, ServerState::Disconnecting { stop: false }));
}

#[test]
fn server_answers_timeout_when_the_tool_gives_no_response() {
    let (_, action) = server_step(ServerState::AwaitingResponse, ServerEvent::Response(ResponseWait::TimedOut), false);
    match action {
        ServerAction::Write { response, .. } => {
            assert_eq!(response, br#"{"version":1,"code":"timeout"}"#.to_vec());
            assert_eq!(response, timeout_response_bytes());
        }
        _ => panic!("expected a write"),
    }
    let (_, action) = server_step(ServerState::AwaitingResponse, ServerEvent::Response(ResponseWait::Disconnected), false);
    assert!(matches!(action, ServerAction::Write { .. }));
}

#[test]
fn server_stops_on_shutdown() {
    assert!(matches!(server_loop_top(true).1, ServerAction::Stop));
    let (state, action) = server_step(ServerState::Connecting, ServerEvent::Connected(Err(PipeIoError::Shutdown)), false);
    assert!(matches!(state, ServerState::Stopped));
    assert!(matches!(action, ServerAction::Stop));
    let (state, _) = server_step(ServerState::CheckingUser(b"x".to_vec()), ServerEvent::UserChecked(true), true);
    assert!(matches!(state, ServerState::Disconnecting { stop: true }));
    let (_, action) = server_step(ServerState::Disconnecting { stop: true }, ServerEvent::Disconnected, false);
    assert!(matches!(action, ServerAction::Stop));
    let (_, action) = server_step(ServerState::Forwarding, ServerEvent::Forwarded(false), false);
    assert!(matches!(action, ServerAction::Stop));
    let (_, action) = server_step(ServerState::Disconnecting { stop: false }, ServerEvent::Disconnected, true);
    assert!(matches!(action, ServerAction::Stop));
}

#[test]
fn client_exchange_writes_then_reads_within_the_time_left() {
    let (mut exchange, action) = ClientExchange::start(b"hello".to_vec(), 1_000);
    assert!(matches!(action, ClientAction::Open));
    assert!(matches!(exchange.step(ClientEvent::Opened(Ok(()))), ClientAction::CheckServerSession));
    match exchange.step(ClientEvent::ServerSessionChecked(true)) {
        ClientAction::Write { request, timeout_ns } => {
            assert_eq!(request, b"hello".to_vec());
            assert_eq!(timeout_ns, 1_000);
        }
        _ => panic!("expected a write"),
    }
    assert!(matches!(
        exchange.step(ClientEvent::Written(Ok(400))),
        ClientAction::Read { max_bytes: MAX_FRAME_BYTES, timeout_ns: 600 }
    ));
    match exchange.step(ClientEvent::ReadDone(Ok(b"ok".to_vec()))) {
        ClientAction::Finish(Ok(bytes)) => assert_eq!(bytes, b"ok".to_vec()),
        _ => panic!("expected the response"),
    }
}

#[test]
fn local_ipc_request_to_absent_server_returns_no_server() {
    let (mut exchange, _) = ClientExchange::start(b"x".to_vec(), 1_000);
    assert!(matches!(
        exchange.step(ClientEvent::Opened(Err(ERROR_FILE_NOT_FOUND))),
        ClientAction::Finish(Err(LocalIpcClientError::NoServer))
    ));
}

#[test]
fn client_exchange_refuses_foreign_session_and_late_writes() {
    let (mut exchange, _) = ClientExchange::start(b"x".to_vec(), 1_000);
    exchange.step(ClientEvent::Opened(Ok(())));
    match exchange.step(ClientEvent::ServerSessionChecked(false)) {
        ClientAction::Finish(Err(LocalIpcClientError::SecurityRejected(m))) => {
            assert_eq!(m, "server session did not match current session")
        }
        _ => panic!("expected a refusal"),
    }
    let (mut late, _) = ClientExchange::start(b"x".to_vec(), 1_000);
    late.step(ClientEvent::Opened(Ok(())));
    late.step(ClientEvent::ServerSessionChecked(true));
    assert!(matches!(
        late.step(ClientEvent::Written(Ok(1_000))),
        ClientAction::Finish(Err(LocalIpcClientError::Timeout))
    ));
    let (mut closed, _) = ClientExchange::start(b"x".to_vec(), 1_000);
    closed.step(ClientEvent::Opened(Ok(())));
    closed.step(ClientEvent::ServerSessionChecked(true));
    closed.step(ClientEvent::Written(Ok(1)));
    assert!(matches!(
        closed.step(ClientEvent::ReadDone(Err(PipeIoError::BrokenPipe))),
        ClientAction::Finish(Err(LocalIpcClientError::SecurityRejected(_)))
    ));
}

#[test]
fn local_ipc_oversized_request_is_rejected_before_transport_open() {
    assert_eq!(
        check_request_size(MAX_FRAME_BYTES + 1),
        Some(LocalIpcClientError::Io("request frame is too large".to_string()))
    );
    assert_eq!(check_request_size(MAX_FRAME_BYTES), None);
}

#[test]
fn only_a_server_that_is_not_ready_is_retried_in_time() {
    assert!(should_retry_request(&Err(LocalIpcClientError::ServerNotReady), true));
    assert!(!should_retry_request(&Err(LocalIpcClientError::ServerNotReady), false));
    assert!(!should_retry_request(&Err(LocalIpcClientError::Timeout), true));
    assert!(!should_retry_request(&Ok(Vec::new()), true));
}
