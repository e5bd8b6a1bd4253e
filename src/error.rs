use vstd::prelude::*;

verus! {

/// Whether a startup failure stops the process as a configuration fault, or is
/// an operating condition that is logged before a clean exit.
#[derive(Clone, Copy, Debug, PartialEq, Eq, Structural)]
pub enum ErrorKind {
    Fatal,
    Operational,
}

/// Exit status after a fatal configuration error.
pub const EXIT_FATAL: i32 = 2;

/// Exit status after the listener could not be bound.
pub const EXIT_BIND_FAILED: i32 = 1;

/// What can stop the service from starting.
#[derive(Debug)]
pub enum StartupError {
    /// An exporter could not be configured (for instance a malformed endpoint).
    ExporterConfig { reason: String },
    /// The global event pipeline was already installed, or installing it failed.
    SubscriberInstall,
    /// The listening socket could not be bound.
    ListenerBind { reason: String },
}

/// Kind of each startup error: only a bind failure is operational.
pub open spec fn error_kind(e: &StartupError) -> ErrorKind {
    match e {
        StartupError::ListenerBind { .. } => ErrorKind::Operational,
        _ => ErrorKind::Fatal,
    }
}

/// Exit status of each kind; both are non-zero.
pub open spec fn kind_exit_code(k: ErrorKind) -> i32 {
    match k {
        ErrorKind::Fatal => EXIT_FATAL,
        ErrorKind::Operational => EXIT_BIND_FAILED,
    }
}

impl StartupError {
    pub fn kind(&self) -> (r: ErrorKind)
        ensures
            r == error_kind(self),
    {
        match self {
            StartupError::ListenerBind { .. } => ErrorKind::Operational,
            _ => ErrorKind::Fatal,
        }
    }

    /// The status the process exits with after this error.
    pub fn exit_code(&self) -> (r: i32)
        ensures
            r == kind_exit_code(error_kind(self)),
            r != 0,
    {
        match self.kind() {
            ErrorKind::Fatal => EXIT_FATAL,
            ErrorKind::Operational => EXIT_BIND_FAILED,
        }
    }
}

} // verus!
