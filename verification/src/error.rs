//! Engine errors and their HTTP mapping.
use vstd::prelude::*;

verus! {

/// Errors of PHP execution.
#[derive(Debug)]
pub enum EngineError {
    /// The request ran past its deadline.
    Timeout,
    /// The sandbox refused an operation.
    Sandbox(String),
    /// PHP stopped with a fatal error.
    PhpFatal(String),
    /// A resource limit was exceeded.
    ResourceLimit,
    /// A plugin hook failed.
    Plugin(String),
    /// The worker IPC protocol was violated.
    IpcProtocol(String),
}

/// The HTTP status an error is answered with.
pub open spec fn http_status(e: EngineError) -> u16 {
    match e {
        EngineError::Timeout => 408,
        EngineError::Sandbox(_) => 500,
        EngineError::PhpFatal(_) => 502,
        EngineError::ResourceLimit => 429,
        EngineError::Plugin(_) => 500,
        EngineError::IpcProtocol(_) => 500,
    }
}

/// The error's message: a fixed text, or a fixed prefix and the detail.
pub open spec fn message(e: EngineError) -> Seq<char> {
    match e {
        EngineError::Timeout => "execution timeout"@,
        EngineError::Sandbox(m) => "sandbox violation: "@ + m@,
        EngineError::PhpFatal(m) => "PHP fatal error: "@ + m@,
        EngineError::ResourceLimit => "resource limit exceeded"@,
        EngineError::Plugin(m) => "plugin error: "@ + m@,
        EngineError::IpcProtocol(m) => "IPC protocol error: "@ + m@,
    }
}

fn prefixed(prefix: &str, detail: &String) -> (s: String)
    ensures
        s@ == prefix@ + detail@,
{
    let mut s = prefix.to_string();
    s.append(detail.as_str());
    s
}

impl EngineError {
    /// The HTTP status for this error: 408 timeout, 429 resource limit, 502
    /// PHP fatal, 500 otherwise.
    pub fn to_http_status(&self) -> (s: u16)
        ensures
            s == http_status(*self),
    {
        match self {
            EngineError::Timeout => 408,
            EngineError::Sandbox(_) => 500,
            EngineError::PhpFatal(_) => 502,
            EngineError::ResourceLimit => 429,
            EngineError::Plugin(_) => 500,
            EngineError::IpcProtocol(_) => 500,
        }
    }

    /// The error's message (what displaying it prints).
    pub fn to_string(&self) -> (s: String)
        ensures
            s@ == message(*self),
    {
        match self {
            EngineError::Timeout => "execution timeout".to_string(),
            EngineError::Sandbox(m) => prefixed("sandbox violation: ", m),
            EngineError::PhpFatal(m) => prefixed("PHP fatal error: ", m),
            EngineError::ResourceLimit => "resource limit exceeded".to_string(),
            EngineError::Plugin(m) => prefixed("plugin error: ", m),
            EngineError::IpcProtocol(m) => prefixed("IPC protocol error: ", m),
        }
    }
}

} // verus!
