//! The hardware bus a card hangs off.

use vstd::prelude::*;

use crate::text::{eq_ignore_ascii_case, seq_eq_ci};

verus! {

#[derive(Clone, Copy, Debug, PartialEq, Eq, Structural)]
pub enum Bus {
    PCI,
    Bluetooth,
    USB,
}

/// The bus a listing token denotes, compared case-insensitively.
pub open spec fn bus_of_token(s: Seq<char>) -> Option<Bus> {
    if seq_eq_ci(s, "pci"@) {
        Some(Bus::PCI)
    } else if seq_eq_ci(s, "bluetooth"@) {
        Some(Bus::Bluetooth)
    } else if seq_eq_ci(s, "usb"@) {
        Some(Bus::USB)
    } else {
        None
    }
}

/// The human-readable name of a bus.
pub open spec fn bus_display(b: Bus) -> Seq<char> {
    match b {
        Bus::PCI => "PCI"@,
        Bus::Bluetooth => "Bluetooth"@,
        Bus::USB => "USB"@,
    }
}

impl Bus {
    /// Reads a listing token; `None` when it names no bus.
    pub fn try_from_pa_str(value: &str) -> (r: Option<Bus>)
        ensures
            r == bus_of_token(value@),
    {
        if eq_ignore_ascii_case(value, "pci") {
            Some(Bus::PCI)
        } else if eq_ignore_ascii_case(value, "bluetooth") {
            Some(Bus::Bluetooth)
        } else if eq_ignore_ascii_case(value, "usb") {
            Some(Bus::USB)
        } else {
            None
        }
    }

    /// Reads a listing token that is known to name a bus.
    pub fn from_pa_str(value: &str) -> (r: Bus)
        requires
            bus_of_token(value@) is Some,
        ensures
            Some(r) == bus_of_token(value@),
    {
        match Self::try_from_pa_str(value) {
            Some(b) => b,
            None => vstd::pervasive::unreached(),
        }
    }

    pub fn to_display_string(&self) -> (r: String)
        ensures
            r@ == bus_display(*self),
    {
        match self {
            Bus::PCI => "PCI".to_owned(),
            Bus::Bluetooth => "Bluetooth".to_owned(),
            Bus::USB => "USB".to_owned(),
        }
    }
}

impl Default for Bus {
    /// A card names no bus until the listing says otherwise.
    fn default() -> (r: Self)
        ensures
            r == Bus::PCI,
    {
        Bus::PCI
    }
}

} // verus!
