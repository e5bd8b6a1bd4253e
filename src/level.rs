use vstd::prelude::*;

verus! {

/// Severity of a log or trace event, from the most verbose to the most severe.
#[derive(Clone, Copy, Debug, PartialEq, Eq, Structural)]
pub enum Severity {
    Trace,
    Debug,
    Info,
    Warn,
    Error,
}

/// Minimum severity a filter rule asks for; `Off` lets nothing through.
#[derive(Clone, Copy, Debug, PartialEq, Eq, Structural)]
pub enum Threshold {
    Trace,
    Debug,
    Info,
    Warn,
    Error,
    Off,
}

/// Position of a severity on the scale, `Trace` lowest.
pub open spec fn severity_rank(s: Severity) -> nat {
    match s {
        Severity::Trace => 0,
        Severity::Debug => 1,
        Severity::Info => 2,
        Severity::Warn => 3,
        Severity::Error => 4,
    }
}

/// Position of a threshold on the same scale; `Off` lies above every severity.
pub open spec fn threshold_rank(t: Threshold) -> nat {
    match t {
        Threshold::Trace => 0,
        Threshold::Debug => 1,
        Threshold::Info => 2,
        Threshold::Warn => 3,
        Threshold::Error => 4,
        Threshold::Off => 5,
    }
}

/// An event passes a threshold iff its severity is at least the threshold.
pub open spec fn admits(t: Threshold, s: Severity) -> bool {
    severity_rank(s) >= threshold_rank(t)
}

/// The directive spelling of a threshold.
pub open spec fn threshold_name(t: Threshold) -> Seq<char> {
    match t {
        Threshold::Trace => "trace"@,
        Threshold::Debug => "debug"@,
        Threshold::Info => "info"@,
        Threshold::Warn => "warn"@,
        Threshold::Error => "error"@,
        Threshold::Off => "off"@,
    }
}

impl Severity {
    pub fn rank(&self) -> (r: u8)
        ensures
            r as nat == severity_rank(*self),
    {
        match self {
            Severity::Trace => 0,
            Severity::Debug => 1,
            Severity::Info => 2,
            Severity::Warn => 3,
            Severity::Error => 4,
        }
    }
}

impl Threshold {
    pub fn rank(&self) -> (r: u8)
        ensures
            r as nat == threshold_rank(*self),
    {
        match self {
            Threshold::Trace => 0,
            Threshold::Debug => 1,
            Threshold::Info => 2,
            Threshold::Warn => 3,
            Threshold::Error => 4,
            Threshold::Off => 5,
        }
    }

    /// Whether an event of severity `s` passes this threshold.
    pub fn admits(&self, s: Severity) -> (r: bool)
        ensures
            r == admits(*self, s),
    {
        s.rank() >= self.rank()
    }

    /// The name under which the threshold is written in a filter directive.
    pub fn name(&self) -> (r: &'static str)
        ensures
            r@ == threshold_name(*self),
    {
        match self {
            Threshold::Trace => "trace",
            Threshold::Debug => "debug",
            Threshold::Info => "info",
            Threshold::Warn => "warn",
            Threshold::Error => "error",
            Threshold::Off => "off",
        }
    }
}

} // verus!
