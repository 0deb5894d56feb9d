//! Request handling of the Windows daemon: which requests it answers and how.
use vstd::prelude::*;
use crate::text::string_of;

verus! {

/// The requests that the Windows daemon tells apart.
#[derive(Clone, Copy, Debug, PartialEq, Eq, Structural)]
pub enum WindowsRequest {
    Ping,
    SystemInfo,
    ListDevices,
    /// A well-formed request that the Windows daemon does not serve.
    Unsupported,
    /// A line that is not a request.
    Malformed,
}

/// How the Windows daemon answers a request.
#[derive(Clone, Copy, Debug, PartialEq, Eq, Structural)]
pub enum WindowsReply {
    Pong,
    SystemInfo,
    EmptyDeviceList,
    NotImplemented,
    DeserializeFailed,
}

/// The answer to each request.
pub open spec fn reply_spec(request: WindowsRequest) -> WindowsReply {
    match request {
        WindowsRequest::Ping => WindowsReply::Pong,
        WindowsRequest::SystemInfo => WindowsReply::SystemInfo,
        WindowsRequest::ListDevices => WindowsReply::EmptyDeviceList,
        WindowsRequest::Unsupported => WindowsReply::NotImplemented,
        WindowsRequest::Malformed => WindowsReply::DeserializeFailed,
    }
}

/// Chooses the answer to a request.
pub fn reply_for(request: WindowsRequest) -> (r: WindowsReply)
    ensures
        r == reply_spec(request),
        request is Ping <==> r is Pong,
        request is SystemInfo <==> r is SystemInfo,
        request is ListDevices <==> r is EmptyDeviceList,
        request is Unsupported <==> r is NotImplemented,
        request is Malformed <==> r is DeserializeFailed,
{
    match request {
        WindowsRequest::Ping => WindowsReply::Pong,
        WindowsRequest::SystemInfo => WindowsReply::SystemInfo,
        WindowsRequest::ListDevices => WindowsReply::EmptyDeviceList,
        WindowsRequest::Unsupported => WindowsReply::NotImplemented,
        WindowsRequest::Malformed => WindowsReply::DeserializeFailed,
    }
}

/// Whether a reply is an error response.
pub open spec fn reply_is_error(reply: WindowsReply) -> bool {
    reply is NotImplemented || reply is DeserializeFailed
}

impl WindowsReply {
    /// The error text sent with an error reply; `None` for a successful one.
    pub fn error_message(&self) -> (r: Option<String>)
        ensures
            reply_is_error(*self) <==> r is Some,
            *self is NotImplemented ==> r.unwrap()@ == "This request is not implemented by the Windows backend yet"@,
            *self is DeserializeFailed ==> r.unwrap()@ == "Failed to deserialize request"@,
    {
        match *self {
            WindowsReply::NotImplemented => Some(string_of("This request is not implemented by the Windows backend yet")),
            WindowsReply::DeserializeFailed => Some(string_of("Failed to deserialize request")),
            _ => None,
        }
    }
}

/// The fields of the system information that the Windows daemon fills in itself.
#[derive(Debug)]
pub struct WindowsSystemInfo {
    pub distro: Option<String>,
    pub kernel_version: String,
}

/// Builds the Windows system information from the value of the `OS`
/// environment variable, when it is set.
pub fn system_info(os: Option<String>) -> (r: WindowsSystemInfo)
    ensures
        r.distro is Some,
        r.distro.unwrap()@ == "Windows"@,
        os matches Some(v) ==> r.kernel_version@ == v@,
        os is None ==> r.kernel_version@ == "Windows"@,
{
    let kernel_version = match os {
        Some(v) => v,
        None => string_of("Windows"),
    };
    WindowsSystemInfo { distro: Some(string_of("Windows")), kernel_version }
}

/// The named pipe the daemon listens on when `LACT_DAEMON_PIPE` names none.
pub const DEFAULT_PIPE_NAME: &'static str = "\\\\.\\pipe\\lactd";

/// The pipe to listen on: the configured name, else `DEFAULT_PIPE_NAME`.
pub fn pipe_name(configured: Option<String>) -> (r: String)
    ensures
        configured matches Some(v) ==> r@ == v@,
        configured is None ==> r@ == DEFAULT_PIPE_NAME@,
{
    match configured {
        Some(v) => v,
        None => string_of(DEFAULT_PIPE_NAME),
    }
}

} // verus!
