//! The state systemd reports for the running system.

use vstd::prelude::*;

use crate::oci::concat;
use crate::text;

verus! {

/// `systemctl is-system-running`.
#[derive(Debug, Clone, Copy, PartialEq, Eq, Structural)]
pub enum SystemState {
    Initializing,
    Starting,
    Running,
    Degraded,
    Maintenance,
    Stopping,
    Offline,
    Unknown,
}

/// The state named by `s`, by its exact (lower-case) name.
pub open spec fn state_named(s: Seq<char>) -> Option<SystemState> {
    if s == "initializing"@ {
        Some(SystemState::Initializing)
    } else if s == "starting"@ {
        Some(SystemState::Starting)
    } else if s == "running"@ {
        Some(SystemState::Running)
    } else if s == "degraded"@ {
        Some(SystemState::Degraded)
    } else if s == "maintenance"@ {
        Some(SystemState::Maintenance)
    } else if s == "stopping"@ {
        Some(SystemState::Stopping)
    } else if s == "offline"@ {
        Some(SystemState::Offline)
    } else if s == "unknown"@ {
        Some(SystemState::Unknown)
    } else {
        None
    }
}

impl SystemState {
    /// Reads the state from the output of `systemctl is-system-running`,
    /// surrounding whitespace ignored.
    pub fn parse(s: &str) -> (res: Result<SystemState, String>)
        ensures
            match res {
                Ok(st) => state_named(text::trim(s@)) == Some(st),
                Err(m) => state_named(text::trim(s@)).is_none() && m@
                    == "unrecognized system state: "@ + text::trim(s@),
            },
    {
        let t = text::trim_str(s);
        let ts = t.as_str();
        if text::str_eq(ts, "initializing") {
            Ok(SystemState::Initializing)
        } else if text::str_eq(ts, "starting") {
            Ok(SystemState::Starting)
        } else if text::str_eq(ts, "running") {
            Ok(SystemState::Running)
        } else if text::str_eq(ts, "degraded") {
            Ok(SystemState::Degraded)
        } else if text::str_eq(ts, "maintenance") {
            Ok(SystemState::Maintenance)
        } else if text::str_eq(ts, "stopping") {
            Ok(SystemState::Stopping)
        } else if text::str_eq(ts, "offline") {
            Ok(SystemState::Offline)
        } else if text::str_eq(ts, "unknown") {
            Ok(SystemState::Unknown)
        } else {
            Err(concat("unrecognized system state: ", ts))
        }
    }
}

impl core::str::FromStr for SystemState {
    type Err = String;

    fn from_str(s: &str) -> (res: Result<SystemState, String>)
        ensures
            match res {
                Ok(st) => state_named(text::trim(s@)) == Some(st),
                Err(m) => state_named(text::trim(s@)).is_none() && m@
                    == "unrecognized system state: "@ + text::trim(s@),
            },
    {
        SystemState::parse(s)
    }
}

} // verus!
