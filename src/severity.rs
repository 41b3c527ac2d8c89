use vstd::prelude::*;

verus! {

/// Syslog severity, the low three bits of the PRI value.
#[derive(Debug, Clone, Copy, PartialEq, Eq, Structural)]
pub enum Severity {
    Emergency,
    Alert,
    Critical,
    Error,
    Warning,
    Notice,
    Informational,
    Debug,
}

/// The severity that a priority value encodes: its remainder modulo 8.
pub open spec fn severity_of(pri: int) -> Severity {
    let code = pri % 8;
    if code == 0 {
        Severity::Emergency
    } else if code == 1 {
        Severity::Alert
    } else if code == 2 {
        Severity::Critical
    } else if code == 3 {
        Severity::Error
    } else if code == 4 {
        Severity::Warning
    } else if code == 5 {
        Severity::Notice
    } else if code == 6 {
        Severity::Informational
    } else {
        Severity::Debug
    }
}

/// The display colour of each severity, as an RGB triple.
pub open spec fn color_of(s: Severity) -> (u8, u8, u8) {
    match s {
        Severity::Emergency | Severity::Alert | Severity::Critical => (255, 100, 100),
        Severity::Error => (255, 120, 120),
        Severity::Warning => (255, 200, 100),
        Severity::Notice | Severity::Informational => (150, 255, 150),
        Severity::Debug => (180, 180, 255),
    }
}

impl Severity {
    /// Severity of a PRI value (the facility, `pri / 8`, is not kept).
    pub fn from_pri(pri: u8) -> (r: Severity)
        ensures
            r == severity_of(pri as int),
    {
        match pri % 8 {
            0 => Severity::Emergency,
            1 => Severity::Alert,
            2 => Severity::Critical,
            3 => Severity::Error,
            4 => Severity::Warning,
            5 => Severity::Notice,
            6 => Severity::Informational,
            _ => Severity::Debug,
        }
    }

    /// Display colour: reds for the alarming levels, orange for warnings,
    /// green for notices and information, light blue for debug.
    pub fn color(&self) -> (r: (u8, u8, u8))
        ensures
            r == color_of(*self),
    {
        match self {
            Severity::Emergency | Severity::Alert | Severity::Critical => (255, 100, 100),
            Severity::Error => (255, 120, 120),
            Severity::Warning => (255, 200, 100),
            Severity::Notice | Severity::Informational => (150, 255, 150),
            Severity::Debug => (180, 180, 255),
        }
    }
}

/// Adding 8 to a priority value (one facility further) leaves its severity
/// unchanged.
pub proof fn lemma_from_pri_period(pri: u8)
    requires
        pri as int + 8 <= u8::MAX as int,
    ensures
        severity_of(pri as int) == severity_of(pri as int + 8),
{
    assert((pri as int + 8) % 8 == (pri as int) % 8);
}

} // verus!
