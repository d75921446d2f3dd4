//! The bluetooth connection mode of a bluetooth-backed endpoint.

use vstd::prelude::*;

use crate::text::{eq_ignore_ascii_case, seq_eq_ci};

verus! {

#[derive(Clone, Copy, Debug, PartialEq, Eq, Structural)]
pub enum BluetoothProtocol {
    HeadsetHeadUnit,
    A2DPSink,
}

/// The protocol a listing token denotes, compared case-insensitively.
pub open spec fn bluetooth_protocol_of_token(s: Seq<char>) -> Option<BluetoothProtocol> {
    if seq_eq_ci(s, "headset_head_unit"@) {
        Some(BluetoothProtocol::HeadsetHeadUnit)
    } else if seq_eq_ci(s, "a2dp_sink"@) {
        Some(BluetoothProtocol::A2DPSink)
    } else {
        None
    }
}

/// The human-readable name of a protocol.
pub open spec fn bluetooth_protocol_display(p: BluetoothProtocol) -> Seq<char> {
    match p {
        BluetoothProtocol::HeadsetHeadUnit => "Headset Head Unit (HSP/HFP)"@,
        BluetoothProtocol::A2DPSink => "A2DP Sink"@,
    }
}

impl BluetoothProtocol {
    /// Reads a listing token; `None` when it names no protocol.
    pub fn try_from_pa_str(value: &str) -> (r: Option<BluetoothProtocol>)
        ensures
            r == bluetooth_protocol_of_token(value@),
    {
        if eq_ignore_ascii_case(value, "headset_head_unit") {
            Some(BluetoothProtocol::HeadsetHeadUnit)
        } else if eq_ignore_ascii_case(value, "a2dp_sink") {
            Some(BluetoothProtocol::A2DPSink)
        } else {
            None
        }
    }

    /// Reads a listing token that is known to name a protocol.
    pub fn from_pa_str(value: &str) -> (r: BluetoothProtocol)
        requires
            bluetooth_protocol_of_token(value@) is Some,
        ensures
            Some(r) == bluetooth_protocol_of_token(value@),
    {
        match Self::try_from_pa_str(value) {
            Some(p) => p,
            None => vstd::pervasive::unreached(),
        }
    }

    pub fn to_display_string(&self) -> (r: String)
        ensures
            r@ == bluetooth_protocol_display(*self),
    {
        match self {
            BluetoothProtocol::HeadsetHeadUnit => "Headset Head Unit (HSP/HFP)".to_owned(),
            BluetoothProtocol::A2DPSink => "A2DP Sink".to_owned(),
        }
    }
}

} // verus!
