//! Whether an endpoint captures (source) or plays back (sink).

use vstd::prelude::*;

verus! {

#[derive(Clone, Copy, Debug, PartialEq, Eq, Structural)]
pub enum CardDeviceType {
    Source,
    Sink,
}

/// The human-readable name of a direction.
pub open spec fn card_device_type_display(t: CardDeviceType) -> Seq<char> {
    match t {
        CardDeviceType::Source => "Source"@,
        CardDeviceType::Sink => "Sink"@,
    }
}

impl CardDeviceType {
    pub fn to_display_string(&self) -> (r: String)
        ensures
            r@ == card_device_type_display(*self),
    {
        match self {
            CardDeviceType::Source => "Source".to_owned(),
            CardDeviceType::Sink => "Sink".to_owned(),
        }
    }
}

} // verus!
