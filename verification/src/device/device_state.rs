//! The lifecycle state of an endpoint.

use vstd::prelude::*;

use crate::text::{eq_ignore_ascii_case, seq_eq_ci};

verus! {

#[derive(Clone, Copy, Debug, PartialEq, Eq, Structural)]
pub enum DeviceState {
    Running,
    Idle,
    Suspended,
}

/// The state a listing token denotes, compared case-insensitively.
pub open spec fn device_state_of_token(s: Seq<char>) -> Option<DeviceState> {
    if seq_eq_ci(s, "running"@) {
        Some(DeviceState::Running)
    } else if seq_eq_ci(s, "idle"@) {
        Some(DeviceState::Idle)
    } else if seq_eq_ci(s, "suspended"@) {
        Some(DeviceState::Suspended)
    } else {
        None
    }
}

/// The human-readable name of a state.
pub open spec fn device_state_display(d: DeviceState) -> Seq<char> {
    match d {
        DeviceState::Running => "running"@,
        DeviceState::Idle => "idle"@,
        DeviceState::Suspended => "suspended"@,
    }
}

impl DeviceState {
    /// Reads a listing token; `None` when it names no state.
    pub fn try_from_pa_str(value: &str) -> (r: Option<DeviceState>)
        ensures
            r == device_state_of_token(value@),
    {
        if eq_ignore_ascii_case(value, "running") {
            Some(DeviceState::Running)
        } else if eq_ignore_ascii_case(value, "idle") {
            Some(DeviceState::Idle)
        } else if eq_ignore_ascii_case(value, "suspended") {
            Some(DeviceState::Suspended)
        } else {
            None
        }
    }

    /// Reads a listing token that is known to name a state.
    pub fn from_pa_str(value: &str) -> (r: DeviceState)
        requires
            device_state_of_token(value@) is Some,
        ensures
            Some(r) == device_state_of_token(value@),
    {
        match Self::try_from_pa_str(value) {
            Some(d) => d,
            None => vstd::pervasive::unreached(),
        }
    }

    pub fn to_display_string(&self) -> (r: String)
        ensures
            r@ == device_state_display(*self),
    {
        match self {
            DeviceState::Running => "running".to_owned(),
            DeviceState::Idle => "idle".to_owned(),
            DeviceState::Suspended => "suspended".to_owned(),
        }
    }
}

impl Default for DeviceState {
    fn default() -> (r: Self)
        ensures
            r == DeviceState::Suspended,
    {
        DeviceState::Suspended
    }
}

} // verus!
