use vstd::prelude::*;
use crate::text::{concat, decimal, format_u64};

verus! {

#[verifier::external_type_specification]
#[verifier::external_body]
#[verifier::reject_recursive_types(T)]
pub struct ExMpscSender<T>(std::sync::mpsc::Sender<T>);

/// Largest frame, in bytes, that the pipe carries.
pub const MAX_FRAME_BYTES: usize = 4096;
/// Default wait, in milliseconds, of a client for a busy pipe.
pub const PIPE_TIMEOUT_MS: u32 = 5000;
/// Number of server instances the pipe allows: one.
pub const PIPE_MAX_INSTANCES: u32 = 1;
/// Whether the server reads a client's token as itself, as identification-level clients need.
pub const OPEN_CLIENT_TOKEN_AS_SELF: bool = true;

/// Win32 error: file not found.
pub const ERROR_FILE_NOT_FOUND: u32 = 2;
/// Win32 error: path not found.
pub const ERROR_PATH_NOT_FOUND: u32 = 3;
/// Win32 error: access denied.
pub const ERROR_ACCESS_DENIED: u32 = 5;
/// Win32 error: the pipe has been ended.
pub const ERROR_BROKEN_PIPE: u32 = 109;
/// Win32 error: all pipe instances are busy.
pub const ERROR_PIPE_BUSY: u32 = 231;
/// Win32 error: the pipe is being closed.
pub const ERROR_NO_DATA: u32 = 232;
/// Win32 error: more data is available than the buffer holds.
pub const ERROR_MORE_DATA: u32 = 234;
/// Win32 wait result: the wait timed out.
pub const WAIT_TIMEOUT: u32 = 258;
/// Win32 error: the I/O operation was aborted.
pub const ERROR_OPERATION_ABORTED: u32 = 995;

/// Pipe opened for reading and writing.
pub const PIPE_ACCESS_DUPLEX: u32 = 0x3;
/// Overlapped (asynchronous) I/O on a handle.
pub const FILE_FLAG_OVERLAPPED: u32 = 0x4000_0000;
/// Creating the pipe fails unless this is its first instance.
pub const FILE_FLAG_FIRST_PIPE_INSTANCE: u32 = 0x0008_0000;
/// Message-type pipe.
pub const PIPE_TYPE_MESSAGE: u32 = 0x4;
/// Message read mode.
pub const PIPE_READMODE_MESSAGE: u32 = 0x2;
/// Blocking pipe mode.
pub const PIPE_WAIT: u32 = 0x0;
/// Connections from other machines are refused.
pub const PIPE_REJECT_REMOTE_CLIENTS: u32 = 0x8;
/// Ordinary file attributes.
pub const FILE_ATTRIBUTE_NORMAL: u32 = 0x80;
/// The server may identify but not impersonate the client.
pub const SECURITY_IDENTIFICATION: u32 = 0x0001_0000;
/// Only the enabled parts of the client's context are visible to the server.
pub const SECURITY_EFFECTIVE_ONLY: u32 = 0x0008_0000;
/// The quality-of-service flags above are present.
pub const SECURITY_SQOS_PRESENT: u32 = 0x0010_0000;

/// The names of this user's and session's local endpoint: the pipe and the mutex that marks
/// the primary instance.
#[derive(Debug, Clone)]
pub struct LocalIpcEndpoint {
    pub pipe_name: String,
    pub mutex_name: String,
}

/// A request that arrived on the pipe, with the channel its response goes back on.
pub struct LocalIpcRequest {
    pub request: Vec<u8>,
    pub response_tx: std::sync::mpsc::Sender<Vec<u8>>,
}

/// How a client's exchange with the local endpoint failed.
#[derive(Debug, Clone, PartialEq, Eq)]
pub enum LocalIpcClientError {
    NoServer,
    ServerNotReady,
    Timeout,
    SecurityRejected(String),
    Io(String),
}

/// How reading or writing the pipe failed.
#[derive(Debug, Clone, PartialEq, Eq)]
pub enum PipeIoError {
    Timeout,
    Shutdown,
    BrokenPipe,
    FrameTooLarge,
    Io(String),
}

/// The open mode of the server's pipe: duplex, overlapped, and only as the first instance.
pub fn server_open_mode() -> (r: u32)
    ensures
        r == PIPE_ACCESS_DUPLEX | FILE_FLAG_OVERLAPPED | FILE_FLAG_FIRST_PIPE_INSTANCE,
{
    PIPE_ACCESS_DUPLEX | FILE_FLAG_OVERLAPPED | FILE_FLAG_FIRST_PIPE_INSTANCE
}

/// The pipe mode of the server's pipe: message type and read mode, blocking, local clients only.
pub fn server_pipe_mode() -> (r: u32)
    ensures
        r == PIPE_TYPE_MESSAGE | PIPE_READMODE_MESSAGE | PIPE_WAIT | PIPE_REJECT_REMOTE_CLIENTS,
{
    PIPE_TYPE_MESSAGE | PIPE_READMODE_MESSAGE | PIPE_WAIT | PIPE_REJECT_REMOTE_CLIENTS
}

/// The flags a client opens the pipe with: overlapped, identification-level quality of
/// service for the enabled context only.
pub fn client_open_flags() -> (r: u32)
    ensures
        r == FILE_ATTRIBUTE_NORMAL | FILE_FLAG_OVERLAPPED | SECURITY_IDENTIFICATION
            | SECURITY_EFFECTIVE_ONLY | SECURITY_SQOS_PRESENT,
{
    FILE_ATTRIBUTE_NORMAL | FILE_FLAG_OVERLAPPED | SECURITY_IDENTIFICATION | SECURITY_EFFECTIVE_ONLY
        | SECURITY_SQOS_PRESENT
}

/// The server proves it holds the first pipe instance, uses overlapped I/O and refuses remote
/// clients; the client uses overlapped I/O and lets the server identify it only.
pub proof fn lemma_pipe_flags_locked_down()
    ensures
        (PIPE_ACCESS_DUPLEX | FILE_FLAG_OVERLAPPED | FILE_FLAG_FIRST_PIPE_INSTANCE) & FILE_FLAG_FIRST_PIPE_INSTANCE != 0,
        (PIPE_ACCESS_DUPLEX | FILE_FLAG_OVERLAPPED | FILE_FLAG_FIRST_PIPE_INSTANCE) & FILE_FLAG_OVERLAPPED != 0,
        (PIPE_TYPE_MESSAGE | PIPE_READMODE_MESSAGE | PIPE_WAIT | PIPE_REJECT_REMOTE_CLIENTS) & PIPE_REJECT_REMOTE_CLIENTS != 0,
        (FILE_ATTRIBUTE_NORMAL | FILE_FLAG_OVERLAPPED | SECURITY_IDENTIFICATION | SECURITY_EFFECTIVE_ONLY
            | SECURITY_SQOS_PRESENT) & FILE_FLAG_OVERLAPPED != 0,
        (FILE_ATTRIBUTE_NORMAL | FILE_FLAG_OVERLAPPED | SECURITY_IDENTIFICATION | SECURITY_EFFECTIVE_ONLY
            | SECURITY_SQOS_PRESENT) & SECURITY_SQOS_PRESENT != 0,
        (FILE_ATTRIBUTE_NORMAL | FILE_FLAG_OVERLAPPED | SECURITY_IDENTIFICATION | SECURITY_EFFECTIVE_ONLY
            | SECURITY_SQOS_PRESENT) & SECURITY_IDENTIFICATION != 0,
        PIPE_MAX_INSTANCES == 1,
        OPEN_CLIENT_TOKEN_AS_SELF,
{
    assert((0x3u32 | 0x4000_0000u32 | 0x0008_0000u32) & 0x0008_0000u32 != 0) by (bit_vector);
    assert((0x3u32 | 0x4000_0000u32 | 0x0008_0000u32) & 0x4000_0000u32 != 0) by (bit_vector);
    assert((0x4u32 | 0x2u32 | 0x0u32 | 0x8u32) & 0x8u32 != 0) by (bit_vector);
    assert((0x80u32 | 0x4000_0000u32 | 0x0001_0000u32 | 0x0008_0000u32 | 0x0010_0000u32) & 0x4000_0000u32 != 0) by (bit_vector);
    assert((0x80u32 | 0x4000_0000u32 | 0x0001_0000u32 | 0x0008_0000u32 | 0x0010_0000u32) & 0x0010_0000u32 != 0) by (bit_vector);
    assert((0x80u32 | 0x4000_0000u32 | 0x0001_0000u32 | 0x0008_0000u32 | 0x0010_0000u32) & 0x0001_0000u32 != 0) by (bit_vector);
}

/// The text of a Win32 error as its debug form shows it.
pub open spec fn win32_error_text(code: u32) -> Seq<char> {
    "WIN32_ERROR("@ + decimal(code as nat) + ")"@
}

fn win32_error_message(context: &str, code: u32) -> (r: String)
    ensures
        r@ == context@ + ": "@ + win32_error_text(code),
{
    let a = concat(context, ": WIN32_ERROR(");
    let b = concat(a.as_str(), format_u64(code as u64).as_str());
    let r = concat(b.as_str(), ")");
    proof {
        reveal_strlit(": WIN32_ERROR(");
        reveal_strlit(": ");
        reveal_strlit("WIN32_ERROR(");
        assert(r@ =~= context@ + ": "@ + win32_error_text(code));
    }
    r
}

/// How a Win32 error of a pipe read or write is classified: a closed pipe, an oversized
/// message, a timed-out wait, or another error reported with its context.
pub open spec fn pipe_io_error_spec(code: u32, context: Seq<char>) -> PipeIoError {
    if code == ERROR_BROKEN_PIPE || code == ERROR_NO_DATA || code == ERROR_OPERATION_ABORTED {
        PipeIoError::BrokenPipe
    } else if code == ERROR_MORE_DATA {
        PipeIoError::FrameTooLarge
    } else if code == WAIT_TIMEOUT {
        PipeIoError::Timeout
    } else {
        PipeIoError::Io(arbitrary())
    }
}

/// Classifies the Win32 error of a pipe read or write (see `pipe_io_error_spec`); another
/// error carries `context: WIN32_ERROR(code)`.
pub fn pipe_io_error_from_code(code: u32, context: &str) -> (r: PipeIoError)
    ensures
        !(pipe_io_error_spec(code, context@) is Io) ==> r == pipe_io_error_spec(code, context@),
        pipe_io_error_spec(code, context@) is Io ==> (r matches PipeIoError::Io(m) && m@ == context@ + ": "@
            + win32_error_text(code)),
{
    if code == ERROR_BROKEN_PIPE || code == ERROR_NO_DATA || code == ERROR_OPERATION_ABORTED {
        PipeIoError::BrokenPipe
    } else if code == ERROR_MORE_DATA {
        PipeIoError::FrameTooLarge
    } else if code == WAIT_TIMEOUT {
        PipeIoError::Timeout
    } else {
        PipeIoError::Io(win32_error_message(context, code))
    }
}

/// `e` is what a failed pipe read or write `err` means to a client (see
/// `client_error_from_pipe_io`).
pub open spec fn is_client_pipe_error(err: PipeIoError, e: LocalIpcClientError) -> bool {
    match err {
        PipeIoError::Timeout => e == LocalIpcClientError::Timeout,
        PipeIoError::BrokenPipe => e == LocalIpcClientError::ServerNotReady,
        PipeIoError::Shutdown => e == LocalIpcClientError::ServerNotReady,
        PipeIoError::FrameTooLarge => e matches LocalIpcClientError::Io(m) && m@
            == "local IPC transport frame exceeded read limit"@,
        PipeIoError::Io(message) => e == LocalIpcClientError::Io(message),
    }
}

/// `e` is what a failed response read `err` means to a client (see
/// `client_response_error_from_pipe_io`).
pub open spec fn is_client_response_error(err: PipeIoError, e: LocalIpcClientError) -> bool {
    match err {
        PipeIoError::BrokenPipe => e matches LocalIpcClientError::SecurityRejected(m) && m@
            == "local IPC server closed the pipe before sending a response"@,
        _ => is_client_pipe_error(err, e),
    }
}

/// `e` is what a failure to open the pipe with Win32 error `code` means to a client (see
/// `client_open_failure`).
pub open spec fn is_client_open_failure(code: u32, e: LocalIpcClientError) -> bool {
    if code == ERROR_FILE_NOT_FOUND || code == ERROR_PATH_NOT_FOUND {
        e == LocalIpcClientError::NoServer
    } else if code == ERROR_PIPE_BUSY || code == ERROR_NO_DATA || code == ERROR_BROKEN_PIPE {
        e == LocalIpcClientError::ServerNotReady
    } else if code == ERROR_ACCESS_DENIED {
        e matches LocalIpcClientError::SecurityRejected(m) && m@ == "access denied while opening local IPC pipe"@
    } else {
        e matches LocalIpcClientError::Io(m) && m@ == "failed to open local IPC pipe: "@ + win32_error_text(code)
    }
}

/// What a failed pipe read or write means to a client: a timeout, a server that is not
/// ready (closed or shutting down pipe), or an I/O error.
pub fn client_error_from_pipe_io(err: PipeIoError) -> (r: LocalIpcClientError)
    ensures
        is_client_pipe_error(err, r),
{
    match err {
        PipeIoError::Timeout => LocalIpcClientError::Timeout,
        PipeIoError::BrokenPipe => LocalIpcClientError::ServerNotReady,
        PipeIoError::FrameTooLarge => LocalIpcClientError::Io(
            crate::text::owned("local IPC transport frame exceeded read limit"),
        ),
        PipeIoError::Shutdown => LocalIpcClientError::ServerNotReady,
        PipeIoError::Io(message) => LocalIpcClientError::Io(message),
    }
}

/// What a Win32 error from opening an existing pipe means to a client: a server that is not
/// ready when the pipe is busy or closing, a security refusal on access denied, and otherwise
/// an I/O error with `detail`.
pub fn client_open_error_from_code(code: u32, detail: String) -> (r: LocalIpcClientError)
    ensures
        (code == ERROR_PIPE_BUSY || code == ERROR_NO_DATA || code == ERROR_BROKEN_PIPE) ==> r
            == LocalIpcClientError::ServerNotReady,
        code == ERROR_ACCESS_DENIED ==> (r matches LocalIpcClientError::SecurityRejected(m) && m@
            == "access denied while opening local IPC pipe"@),
        !(code == ERROR_PIPE_BUSY || code == ERROR_NO_DATA || code == ERROR_BROKEN_PIPE || code
            == ERROR_ACCESS_DENIED) ==> r == LocalIpcClientError::Io(detail),
{
    if code == ERROR_PIPE_BUSY || code == ERROR_NO_DATA || code == ERROR_BROKEN_PIPE {
        LocalIpcClientError::ServerNotReady
    } else if code == ERROR_ACCESS_DENIED {
        LocalIpcClientError::SecurityRejected(
            crate::text::owned("access denied while opening local IPC pipe"),
        )
    } else {
        LocalIpcClientError::Io(detail)
    }
}

/// What a failure to open the pipe means to a client: no server when the pipe does not
/// exist, otherwise as `client_open_error_from_code` says, with the detail
/// `failed to open local IPC pipe: WIN32_ERROR(code)`.
pub fn client_open_failure(code: u32) -> (r: LocalIpcClientError)
    ensures
        is_client_open_failure(code, r),
{
    if code == ERROR_FILE_NOT_FOUND || code == ERROR_PATH_NOT_FOUND {
        LocalIpcClientError::NoServer
    } else {
        let detail = win32_error_message("failed to open local IPC pipe", code);
        proof {
            reveal_strlit("failed to open local IPC pipe");
            reveal_strlit("failed to open local IPC pipe: ");
            reveal_strlit(": ");
            assert("failed to open local IPC pipe"@ + ": "@ =~= "failed to open local IPC pipe: "@);
        }
        client_open_error_from_code(code, detail)
    }
}

/// What a failed response read means to a client: a pipe closed before the response is a
/// security refusal (the server dropped an unauthorized client), the rest as for any pipe
/// failure.
pub fn client_response_error_from_pipe_io(err: PipeIoError) -> (r: LocalIpcClientError)
    ensures
        is_client_response_error(err, r),
{
    match err {
        PipeIoError::BrokenPipe => LocalIpcClientError::SecurityRejected(
            crate::text::owned("local IPC server closed the pipe before sending a response"),
        ),
        other => client_error_from_pipe_io(other),
    }
}

/// FNV-1a offset basis.
pub const FNV_OFFSET_BASIS: u64 = 0xcbf2_9ce4_8422_2325;
/// FNV-1a prime.
pub const FNV_PRIME: u64 = 0x0000_0100_0000_01b3;

/// The 64-bit FNV-1a hash of a byte string.
pub open spec fn fnv1a(bytes: Seq<u8>) -> u64
    decreases bytes.len(),
{
    if bytes.len() == 0 {
        FNV_OFFSET_BASIS
    } else {
        ((fnv1a(bytes.drop_last()) ^ (bytes.last() as u64)) as int * FNV_PRIME as int % 0x1_0000_0000_0000_0000) as u64
    }
}

/// Hashes the UTF-8 bytes of `value` with 64-bit FNV-1a: a hash that is the same in every
/// process, so every instance of one user derives the same endpoint names.
pub fn stable_hash(value: &str) -> (r: u64)
    ensures
        r == fnv1a(vstd::utf8::encode_utf8(value@)),
{
    let bytes = value.as_bytes_vec();
    let mut hash: u64 = FNV_OFFSET_BASIS;
    let mut i: usize = 0;
    while i < bytes.len()
        invariant
            i <= bytes@.len(),
            bytes@ == vstd::utf8::encode_utf8(value@),
            hash == fnv1a(bytes@.take(i as int)),
        decreases bytes.len() - i,
    {
        assert(bytes@.take(i + 1).drop_last() =~= bytes@.take(i as int));
        let mixed = hash ^ (bytes[i] as u64);
        hash = mixed.wrapping_mul(FNV_PRIME);
        i = i + 1;
    }
    assert(bytes@.take(i as int) =~= bytes@);
    hash
}

/// The endpoint names for a hashed identity.
pub open spec fn endpoint_names(identity: u64) -> (Seq<char>, Seq<char>) {
    (
        "\\\\.\\pipe\\cpu-affinity-tool-"@ + decimal(identity as nat),
        "Local\\cpu-affinity-tool-"@ + decimal(identity as nat) + "-primary"@,
    )
}

/// The text the endpoint identity hashes: the user's security id, the session and the
/// executable's path, separated by colons.
pub open spec fn endpoint_identity_text(sid: Seq<char>, session_id: u32, executable: Seq<char>) -> Seq<char> {
    sid + ":"@ + decimal(session_id as nat) + ":"@ + executable
}

/// The endpoint of a user (`sid`) in a session for an executable path: both names carry
/// the FNV-1a hash of `sid:session:executable`, so that each user, session and installation
/// has its own.
pub fn local_ipc_endpoint_for(sid: &str, session_id: u32, executable: &str) -> (r: LocalIpcEndpoint)
    ensures
        ({
            let identity = fnv1a(vstd::utf8::encode_utf8(endpoint_identity_text(sid@, session_id, executable@)));
            &&& r.pipe_name@ == endpoint_names(identity).0
            &&& r.mutex_name@ == endpoint_names(identity).1
        }),
{
    let a = concat(sid, ":");
    let b = concat(a.as_str(), format_u64(session_id as u64).as_str());
    let c = concat(b.as_str(), ":");
    let text = concat(c.as_str(), executable);
    assert(text@ =~= endpoint_identity_text(sid@, session_id, executable@));
    let identity = stable_hash(text.as_str());
    let digits = format_u64(identity);
    let pipe_name = concat("\\\\.\\pipe\\cpu-affinity-tool-", digits.as_str());
    let m = concat("Local\\cpu-affinity-tool-", digits.as_str());
    let mutex_name = concat(m.as_str(), "-primary");
    LocalIpcEndpoint { pipe_name, mutex_name }
}


// ---------------------------------------------------------------------------------------
// The server's loop

/// How long the server waits for a request once a client connected, in milliseconds.
pub const SERVER_READ_TIMEOUT_MS: u64 = 1000;
/// How long the server waits for the tool's response, and for writing it, in milliseconds.
pub const RESPONSE_TIMEOUT_MS: u64 = 5000;

/// The response sent when the tool gives none in time.
pub open spec fn timeout_response() -> Seq<u8> {
    seq![123u8, 34, 118, 101, 114, 115, 105, 111, 110, 34, 58, 49, 44, 34, 99, 111, 100, 101, 34, 58, 34, 116, 105, 109, 101, 111, 117, 116, 34, 125]
}

/// `{"version":1,"code":"timeout"}`: the response sent when the tool gives none in time.
pub fn timeout_response_bytes() -> (r: Vec<u8>)
    ensures
        r@ == timeout_response(),
{
    let r: Vec<u8> = vec![123u8, 34, 118, 101, 114, 115, 105, 111, 110, 34, 58, 49, 44, 34, 99, 111, 100, 101, 34, 58, 34, 116, 105, 109, 101, 111, 117, 116, 34, 125];
    assert(r@ =~= timeout_response());
    r
}

/// How waiting for the tool's response ended.
#[derive(Debug)]
pub enum ResponseWait {
    Received(Vec<u8>),
    /// The wait ran out.
    TimedOut,
    /// The tool dropped the response channel.
    Disconnected,
    /// The server was asked to shut down while waiting.
    ShutDown,
}

/// Where the server's loop stands.
#[derive(Debug)]
pub enum ServerState {
    Connecting,
    CheckingSession,
    Reading,
    CheckingUser(Vec<u8>),
    Forwarding,
    AwaitingResponse,
    Writing,
    /// Disconnecting the client; the loop stops afterwards when `stop` is set.
    Disconnecting { stop: bool },
    Stopped,
}

/// The pipe work the server asks for next.
#[derive(Debug)]
pub enum ServerAction {
    /// Wait for a client to connect.
    Connect,
    /// Check that the client runs in the server's session.
    CheckSession,
    /// Read one request of at most `max_bytes`, waiting at most `timeout_ms`.
    Read { max_bytes: usize, timeout_ms: u64 },
    /// Check that the client runs as the server's user.
    CheckUser,
    /// Hand the request to the tool (and wake it).
    Forward(Vec<u8>),
    /// Wait at most `timeout_ms` for the tool's response.
    AwaitResponse { timeout_ms: u64 },
    /// Write the response, waiting at most `timeout_ms` (a failed write is ignored).
    Write { response: Vec<u8>, timeout_ms: u64 },
    Disconnect,
    Stop,
}

/// What the pipe work gave.
#[derive(Debug)]
pub enum ServerEvent {
    Connected(Result<(), PipeIoError>),
    SessionChecked(bool),
    ReadDone(Result<Vec<u8>, PipeIoError>),
    UserChecked(bool),
    /// Whether the tool still takes requests.
    Forwarded(bool),
    Response(ResponseWait),
    Written,
    Disconnected,
}

/// Whether `event` answers the work that `state` waits for.
pub open spec fn server_event_fits(state: ServerState, event: ServerEvent) -> bool {
    match state {
        ServerState::Connecting => event is Connected,
        ServerState::CheckingSession => event is SessionChecked,
        ServerState::Reading => event is ReadDone,
        ServerState::CheckingUser(_) => event is UserChecked,
        ServerState::Forwarding => event is Forwarded,
        ServerState::AwaitingResponse => event is Response,
        ServerState::Writing => event is Written,
        ServerState::Disconnecting { .. } => event is Disconnected,
        ServerState::Stopped => false,
    }
}

/// The top of the server's loop: it stops once shutdown was asked for, and otherwise waits for
/// a client.
pub fn server_loop_top(shutdown: bool) -> (r: (ServerState, ServerAction))
    ensures
        shutdown ==> r.0 is Stopped && r.1 is Stop,
        !shutdown ==> r.0 is Connecting && r.1 is Connect,
{
    if shutdown {
        (ServerState::Stopped, ServerAction::Stop)
    } else {
        (ServerState::Connecting, ServerAction::Connect)
    }
}

/// Takes one step of the server's loop. A client is served only when it connects, runs in the
/// server's session, sends a non-empty request and runs as the server's user; any other
/// client is disconnected and the loop goes on (a shutdown seen while connecting or reading
/// stops it). The request goes to the tool; once the tool takes no more requests the loop
/// stops. The tool's response, or the timeout response when it gives none in time, is
/// written and the client disconnected. A shutdown asked for (`shutdown`) stops the loop
/// where the client would otherwise be served or the next one awaited.
pub fn server_step(state: ServerState, event: ServerEvent, shutdown: bool) -> (r: (ServerState, ServerAction))
    requires
        server_event_fits(state, event),
    ensures
        state is Connecting ==> match event {
            ServerEvent::Connected(Ok(())) => r.0 is CheckingSession && r.1 is CheckSession,
            ServerEvent::Connected(Err(PipeIoError::Shutdown)) => r.0 is Stopped && r.1 is Stop,
            _ => r.0 == (ServerState::Disconnecting { stop: false }) && r.1 is Disconnect,
        },
        state is CheckingSession ==> match event {
            ServerEvent::SessionChecked(true) => r.0 is Reading && r.1 == (ServerAction::Read {
                max_bytes: MAX_FRAME_BYTES,
                timeout_ms: SERVER_READ_TIMEOUT_MS,
            }),
            _ => r.0 == (ServerState::Disconnecting { stop: false }) && r.1 is Disconnect,
        },
        state is Reading ==> match event {
            ServerEvent::ReadDone(Ok(bytes)) => if bytes@.len() == 0 {
                r.0 == (ServerState::Disconnecting { stop: false }) && r.1 is Disconnect
            } else {
                r.0 matches ServerState::CheckingUser(b) && b@ == bytes@ && r.1 is CheckUser
            },
            ServerEvent::ReadDone(Err(PipeIoError::Shutdown)) => r.0 == (ServerState::Disconnecting { stop: true })
                && r.1 is Disconnect,
            _ => r.0 == (ServerState::Disconnecting { stop: false }) && r.1 is Disconnect,
        },
        state matches ServerState::CheckingUser(request) ==> match event {
            ServerEvent::UserChecked(true) => if shutdown {
                r.0 == (ServerState::Disconnecting { stop: true }) && r.1 is Disconnect
            } else {
                r.0 is Forwarding && (r.1 matches ServerAction::Forward(b) && b@ == request@)
            },
            _ => r.0 == (ServerState::Disconnecting { stop: false }) && r.1 is Disconnect,
        },
        state is Forwarding ==> match event {
            ServerEvent::Forwarded(true) => r.0 is AwaitingResponse && r.1 == (ServerAction::AwaitResponse {
                timeout_ms: RESPONSE_TIMEOUT_MS,
            }),
            _ => r.0 is Stopped && r.1 is Stop,
        },
        state is AwaitingResponse ==> match event {
            ServerEvent::Response(ResponseWait::Received(bytes)) => r.0 is Writing && (r.1 matches ServerAction::Write {
                response,
                timeout_ms,
            } && response@ == bytes@ && timeout_ms == RESPONSE_TIMEOUT_MS),
            ServerEvent::Response(ResponseWait::ShutDown) => r.0 == (ServerState::Disconnecting { stop: true })
                && r.1 is Disconnect,
            _ => r.0 is Writing && (r.1 matches ServerAction::Write { response, timeout_ms } && response@
                == timeout_response() && timeout_ms == RESPONSE_TIMEOUT_MS),
        },
        state is Writing ==> r.0 == (ServerState::Disconnecting { stop: false }) && r.1 is Disconnect,
        state matches ServerState::Disconnecting { stop } ==> if stop || shutdown {
            r.0 is Stopped && r.1 is Stop
        } else {
            r.0 is Connecting && r.1 is Connect
        },
{
    match state {
        ServerState::Connecting => match event {
            ServerEvent::Connected(Ok(())) => (ServerState::CheckingSession, ServerAction::CheckSession),
            ServerEvent::Connected(Err(PipeIoError::Shutdown)) => (ServerState::Stopped, ServerAction::Stop),
            _ => (ServerState::Disconnecting { stop: false }, ServerAction::Disconnect),
        },
        ServerState::CheckingSession => match event {
            ServerEvent::SessionChecked(true) => (
                ServerState::Reading,
                ServerAction::Read { max_bytes: MAX_FRAME_BYTES, timeout_ms: SERVER_READ_TIMEOUT_MS },
            ),
            _ => (ServerState::Disconnecting { stop: false }, ServerAction::Disconnect),
        },
        ServerState::Reading => match event {
            ServerEvent::ReadDone(Ok(bytes)) => if bytes.len() == 0 {
                (ServerState::Disconnecting { stop: false }, ServerAction::Disconnect)
            } else {
                (ServerState::CheckingUser(bytes), ServerAction::CheckUser)
            },
            ServerEvent::ReadDone(Err(PipeIoError::Shutdown)) => (
                ServerState::Disconnecting { stop: true },
                ServerAction::Disconnect,
            ),
            _ => (ServerState::Disconnecting { stop: false }, ServerAction::Disconnect),
        },
        ServerState::CheckingUser(request) => match event {
            ServerEvent::UserChecked(true) => if shutdown {
                (ServerState::Disconnecting { stop: true }, ServerAction::Disconnect)
            } else {
                (ServerState::Forwarding, ServerAction::Forward(request))
            },
            _ => (ServerState::Disconnecting { stop: false }, ServerAction::Disconnect),
        },
        ServerState::Forwarding => match event {
            ServerEvent::Forwarded(true) => (
                ServerState::AwaitingResponse,
                ServerAction::AwaitResponse { timeout_ms: RESPONSE_TIMEOUT_MS },
            ),
            _ => (ServerState::Stopped, ServerAction::Stop),
        },
        ServerState::AwaitingResponse => match event {
            ServerEvent::Response(ResponseWait::Received(bytes)) => (
                ServerState::Writing,
                ServerAction::Write { response: bytes, timeout_ms: RESPONSE_TIMEOUT_MS },
            ),
            ServerEvent::Response(ResponseWait::ShutDown) => (
                ServerState::Disconnecting { stop: true },
                ServerAction::Disconnect,
            ),
            _ => (
                ServerState::Writing,
                ServerAction::Write { response: timeout_response_bytes(), timeout_ms: RESPONSE_TIMEOUT_MS },
            ),
        },
        ServerState::Writing => (ServerState::Disconnecting { stop: false }, ServerAction::Disconnect),
        ServerState::Disconnecting { stop } => server_loop_top(stop || shutdown),
        ServerState::Stopped => (ServerState::Stopped, ServerAction::Stop),
    }
}

// ---------------------------------------------------------------------------------------
// A client's exchange

/// The message of the refusal of a server in another session.
pub open spec fn foreign_session_message() -> Seq<char> {
    "server session did not match current session"@
}

/// Checks a request before any transport is opened: a request longer than a frame is
/// refused.
pub fn check_request_size(request_len: usize) -> (r: Option<LocalIpcClientError>)
    ensures
        request_len > MAX_FRAME_BYTES ==> (r matches Some(LocalIpcClientError::Io(m)) && m@ == "request frame is too large"@),
        request_len <= MAX_FRAME_BYTES ==> r is None,
{
    if request_len > MAX_FRAME_BYTES {
        Some(LocalIpcClientError::Io(crate::text::owned("request frame is too large")))
    } else {
        None
    }
}

/// Where one exchange of a client stands.
#[derive(Debug)]
pub enum ClientState {
    Opening,
    CheckingServer,
    Writing,
    Reading,
    Done,
}

/// The pipe work a client's exchange asks for next, or its result.
#[derive(Debug)]
pub enum ClientAction {
    /// Open the endpoint's pipe.
    Open,
    /// Check that the server runs in the client's session.
    CheckServerSession,
    /// Switch the pipe to message mode and write the request, waiting at most `timeout_ns`.
    Write { request: Vec<u8>, timeout_ns: u64 },
    /// Read the response of at most `max_bytes`, waiting at most `timeout_ns`.
    Read { max_bytes: usize, timeout_ns: u64 },
    Finish(Result<Vec<u8>, LocalIpcClientError>),
}

/// What the pipe work of a client gave.
#[derive(Debug)]
pub enum ClientEvent {
    /// The pipe was opened, or the Win32 error of the attempt.
    Opened(Result<(), u32>),
    ServerSessionChecked(bool),
    /// The request was written after `elapsed_ns`, or the write failed.
    Written(Result<u64, PipeIoError>),
    ReadDone(Result<Vec<u8>, PipeIoError>),
}

/// A client's exchange in progress: the request and the time it may take.
#[derive(Debug)]
pub struct ClientExchange {
    pub request: Vec<u8>,
    pub timeout_ns: u64,
    pub state: ClientState,
}

/// Whether `event` answers the work that `state` waits for.
pub open spec fn client_event_fits(state: ClientState, event: ClientEvent) -> bool {
    match state {
        ClientState::Opening => event is Opened,
        ClientState::CheckingServer => event is ServerSessionChecked,
        ClientState::Writing => event is Written,
        ClientState::Reading => event is ReadDone,
        ClientState::Done => false,
    }
}

impl ClientExchange {
    /// Starts one exchange: the pipe is opened first.
    pub fn start(request: Vec<u8>, timeout_ns: u64) -> (r: (ClientExchange, ClientAction))
        ensures
            r.0.request@ == request@,
            r.0.timeout_ns == timeout_ns,
            r.0.state is Opening,
            r.1 is Open,
    {
        (ClientExchange { request, timeout_ns, state: ClientState::Opening }, ClientAction::Open)
    }

    /// Takes one step of the exchange. A pipe that cannot be opened gives the error its Win32
    /// code means (see `client_open_failure`); a server in another session is refused; the
    /// request is written within the exchange's time, and the response is read within what
    /// is left of it (none left is a timeout). Write and read failures are mapped as
    /// `client_error_from_pipe_io` and `client_response_error_from_pipe_io` say.
    pub fn step(&mut self, event: ClientEvent) -> (r: ClientAction)
        requires
            client_event_fits(old(self).state, event),
        ensures
            final(self).request == old(self).request,
            final(self).timeout_ns == old(self).timeout_ns,
            old(self).state is Opening ==> match event {
                ClientEvent::Opened(Ok(())) => final(self).state is CheckingServer && r is CheckServerSession,
                ClientEvent::Opened(Err(code)) => final(self).state is Done && (r matches ClientAction::Finish(Err(e))
                    && is_client_open_failure(code, e)),
                _ => false,
            },
            old(self).state is CheckingServer ==> match event {
                ClientEvent::ServerSessionChecked(true) => final(self).state is Writing && (r matches ClientAction::Write {
                    request,
                    timeout_ns,
                } && request@ == old(self).request@ && timeout_ns == old(self).timeout_ns),
                _ => final(self).state is Done && (r matches ClientAction::Finish(
                    Err(LocalIpcClientError::SecurityRejected(m)),
                ) && m@ == foreign_session_message()),
            },
            old(self).state is Writing ==> match event {
                ClientEvent::Written(Ok(elapsed)) => if elapsed < old(self).timeout_ns {
                    final(self).state is Reading && r == (ClientAction::Read {
                        max_bytes: MAX_FRAME_BYTES,
                        timeout_ns: (old(self).timeout_ns - elapsed) as u64,
                    })
                } else {
                    final(self).state is Done && r == ClientAction::Finish(Err(LocalIpcClientError::Timeout))
                },
                ClientEvent::Written(Err(e)) => final(self).state is Done && (r matches ClientAction::Finish(Err(x))
                    && is_client_pipe_error(e, x)),
                _ => false,
            },
            old(self).state is Reading ==> match event {
                ClientEvent::ReadDone(Ok(bytes)) => final(self).state is Done && (r matches ClientAction::Finish(Ok(b))
                    && b@ == bytes@),
                ClientEvent::ReadDone(Err(e)) => final(self).state is Done && (r matches ClientAction::Finish(Err(x))
                    && is_client_response_error(e, x)),
                _ => false,
            },
    {
        match event {
            ClientEvent::Opened(Ok(())) => {
                self.state = ClientState::CheckingServer;
                ClientAction::CheckServerSession
            },
            ClientEvent::Opened(Err(code)) => {
                self.state = ClientState::Done;
                ClientAction::Finish(Err(client_open_failure(code)))
            },
            ClientEvent::ServerSessionChecked(same) => {
                if same {
                    self.state = ClientState::Writing;
                    ClientAction::Write { request: crate::text::clone_bytes(&self.request), timeout_ns: self.timeout_ns }
                } else {
                    self.state = ClientState::Done;
                    ClientAction::Finish(
                        Err(
                            LocalIpcClientError::SecurityRejected(
                                crate::text::owned("server session did not match current session"),
                            ),
                        ),
                    )
                }
            },
            ClientEvent::Written(Ok(elapsed)) => {
                if elapsed < self.timeout_ns {
                    self.state = ClientState::Reading;
                    ClientAction::Read { max_bytes: MAX_FRAME_BYTES, timeout_ns: self.timeout_ns - elapsed }
                } else {
                    self.state = ClientState::Done;
                    ClientAction::Finish(Err(LocalIpcClientError::Timeout))
                }
            },
            ClientEvent::Written(Err(e)) => {
                self.state = ClientState::Done;
                ClientAction::Finish(Err(client_error_from_pipe_io(e)))
            },
            ClientEvent::ReadDone(Ok(bytes)) => {
                self.state = ClientState::Done;
                ClientAction::Finish(Ok(bytes))
            },
            ClientEvent::ReadDone(Err(e)) => {
                self.state = ClientState::Done;
                ClientAction::Finish(Err(client_response_error_from_pipe_io(e)))
            },
        }
    }
}

/// Whether a request is tried again: only a server that was not ready yet, while time is
/// left.
pub fn should_retry_request(result: &Result<Vec<u8>, LocalIpcClientError>, time_left: bool) -> (r: bool)
    ensures
        r == (time_left && result matches Err(LocalIpcClientError::ServerNotReady)),
{
    match result {
        Err(LocalIpcClientError::ServerNotReady) => time_left,
        _ => false,
    }
}

} // verus!
