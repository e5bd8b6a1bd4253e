use vstd::prelude::*;
use vstd::string::*;
use crate::error::EXIT_BIND_FAILED;
use crate::level::Severity;

verus! {

/// The port used when the environment names none.
pub open spec fn default_port_text() -> Seq<char> {
    "3000"@
}

/// The port chosen from the value of the `PORT` variable: that value when it
/// is present and non-empty, the default otherwise.
pub open spec fn chosen_port(env_port: Option<Seq<char>>) -> Seq<char> {
    match env_port {
        Some(p) if p.len() > 0 => p,
        _ => default_port_text(),
    }
}

/// Whether the port came from the environment.
pub open spec fn port_from_env(env_port: Option<Seq<char>>) -> bool {
    match env_port {
        Some(p) => p.len() > 0,
        None => false,
    }
}

/// The view of an optional string.
pub open spec fn opt_view(s: Option<String>) -> Option<Seq<char>> {
    match s {
        Some(v) => Some(v@),
        None => None,
    }
}

/// The address the listener binds: every interface, on `port`.
pub open spec fn listen_address(port: Seq<char>) -> Seq<char> {
    "0.0.0.0:"@ + port
}

/// The port the listener should bind, and where it came from.
#[derive(Debug)]
pub struct PortChoice {
    pub port: String,
    pub from_env: bool,
}

/// The default listening port.
pub fn default_port() -> (r: &'static str)
    ensures
        r@ == default_port_text(),
{
    "3000"
}

/// Chooses the listening port from the value of the `PORT` variable.
pub fn resolve_port(env_port: Option<String>) -> (r: PortChoice)
    ensures
        r.port@ == chosen_port(opt_view(env_port)),
        r.from_env == port_from_env(opt_view(env_port)),
{
    match env_port {
        Some(p) => {
            if p.as_str().unicode_len() > 0 {
                PortChoice { port: p, from_env: true }
            } else {
                PortChoice { port: String::from_str(default_port()), from_env: false }
            }
        },
        None => PortChoice { port: String::from_str(default_port()), from_env: false },
    }
}

/// The socket address for `port`.
pub fn bind_address(port: &str) -> (r: String)
    ensures
        r@ == listen_address(port@),
{
    String::from_str("0.0.0.0:").concat(port)
}

/// Stages of startup.
#[derive(Debug)]
pub enum Phase {
    /// Nothing done yet; the port is to be resolved.
    Start,
    /// The port is chosen and the listener is being bound.
    Binding { port: String },
    /// The listener is bound and requests are served until termination.
    Serving { port: String },
    /// The listener could not be bound; the process exits.
    BindFailed,
}

/// What the surrounding runtime reports back.
#[derive(Debug)]
pub enum Event {
    /// The value of the `PORT` variable was read.
    PortLookup { env_port: Option<String> },
    /// The listener was bound.
    Bound,
    /// Binding the listener failed.
    BindRefused { reason: String },
}

/// What the surrounding runtime is asked to do next.
#[derive(Debug)]
pub enum Action {
    /// Bind a listener on the address.
    Bind { address: String },
    /// Serve requests on the bound listener.
    Serve,
    /// Exit the process with the status, without unwinding.
    Exit { code: i32 },
    /// Nothing to do.
    Wait,
}

/// A line to write to the log.
#[derive(Debug)]
pub struct LogLine {
    pub level: Severity,
    pub message: String,
}

/// The outcome of handling one event.
#[derive(Debug)]
pub struct Step {
    pub phase: Phase,
    pub log: Option<LogLine>,
    pub action: Action,
}

/// The log line written when the port comes from the environment.
pub open spec fn env_port_message() -> Seq<char> {
    "Port defined in environment variable."@
}

/// The log line written when the default port is used.
pub open spec fn default_port_message() -> Seq<char> {
    "Port not defined in environment variable, using the default port: "@ + default_port_text()
}

/// The log line written once the listener is bound.
pub open spec fn serving_message(port: Seq<char>) -> Seq<char> {
    "Starting server on port: "@ + port
}

/// The log line written when binding fails.
pub open spec fn bind_failed_message(reason: Seq<char>) -> Seq<char> {
    "Could not start the server: "@ + reason
}

/// Whether a step logs a line of the given level and text.
pub open spec fn logs(s: Step, level: Severity, message: Seq<char>) -> bool {
    s.log matches Some(l) && l.level == level && l.message@ == message
}

/// Handles one event in the given phase.
///
/// The port lookup at the start chooses the port, logs where it came from
/// (info for the environment, a warning for the default) and asks for a bind on
/// all interfaces. A successful bind logs the port and starts serving; a failed
/// one logs the error and asks for a clean exit with a non-zero status. Any
/// other event leaves the phase as it is and asks for nothing.
pub fn step(phase: Phase, event: Event) -> (r: Step)
    ensures
        (phase, event) matches (Phase::Start, Event::PortLookup { env_port }) ==> {
            let port = chosen_port(opt_view(env_port));
            &&& r.phase matches Phase::Binding { port: p } && p@ == port
            &&& r.action matches Action::Bind { address } && address@ == listen_address(port)
            &&& if port_from_env(opt_view(env_port)) {
                logs(r, Severity::Info, env_port_message())
            } else {
                logs(r, Severity::Warn, default_port_message())
            }
        },
        (phase, event) matches (Phase::Binding { port }, Event::Bound) ==> {
            &&& r.phase matches Phase::Serving { port: p } && p@ == port@
            &&& r.action is Serve
            &&& logs(r, Severity::Info, serving_message(port@))
        },
        (phase, event) matches (Phase::Binding { .. }, Event::BindRefused { reason }) ==> {
            &&& r.phase is BindFailed
            &&& r.action == (Action::Exit { code: EXIT_BIND_FAILED })
            &&& logs(r, Severity::Error, bind_failed_message(reason@))
        },
        !((phase, event) matches (Phase::Start, Event::PortLookup { .. }))
            && !((phase, event) matches (Phase::Binding { .. }, Event::Bound))
            && !((phase, event) matches (Phase::Binding { .. }, Event::BindRefused { .. }))
            ==> r.phase == phase && r.log is None && r.action is Wait,
{
    match (phase, event) {
        (Phase::Start, Event::PortLookup { env_port }) => {
            let choice = resolve_port(env_port);
            let address = bind_address(choice.port.as_str());
            let log = if choice.from_env {
                LogLine {
                    level: Severity::Info,
                    message: String::from_str("Port defined in environment variable."),
                }
            } else {
                LogLine {
                    level: Severity::Warn,
                    message: String::from_str(
                        "Port not defined in environment variable, using the default port: ",
                    ).concat(default_port()),
                }
            };
            Step { phase: Phase::Binding { port: choice.port }, log: Some(log), action: Action::Bind { address } }
        },
        (Phase::Binding { port }, Event::Bound) => {
            let message = String::from_str("Starting server on port: ").concat(port.as_str());
            Step {
                phase: Phase::Serving { port },
                log: Some(LogLine { level: Severity::Info, message }),
                action: Action::Serve,
            }
        },
        (Phase::Binding { .. }, Event::BindRefused { reason }) => {
            let message = String::from_str("Could not start the server: ").concat(reason.as_str());
            Step {
                phase: Phase::BindFailed,
                log: Some(LogLine { level: Severity::Error, message }),
                action: Action::Exit { code: EXIT_BIND_FAILED },
            }
        },
        (phase, _) => Step { phase, log: None, action: Action::Wait },
    }
}

} // verus!
