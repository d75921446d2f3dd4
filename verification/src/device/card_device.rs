//! An endpoint — a source or a sink — as one listing block reports it,
//! together with the volume arithmetic of the listing format.

use vstd::prelude::*;

use super::a2dp_codec::A2DPCodec;
use super::bluetooth_protocol::BluetoothProtocol;
use super::bus::Bus;
use super::device_state::DeviceState;
use super::form_factor::FormFactor;

verus! {

/// One endpoint. `volume` is a whole percentage point: the first channel's
/// raw value out of 65535, rescaled to 0..=100 and rounded to nearest.
#[derive(Clone, Debug)]
pub struct CardDevice {
    pub index: u64,
    pub name: String,
    pub driver: String,
    pub state: DeviceState,
    pub is_default: bool,
    pub volume: u64,
    pub is_muted: bool,
    pub card_index: u64,
    pub description: String,
    pub bluetooth_protocol: Option<BluetoothProtocol>,
    pub a2dp_codec: Option<A2DPCodec>,
    pub form_factor: FormFactor,
    pub bus: Bus,
}

/// The mathematical value of an endpoint.
#[verifier::ext_equal]
pub ghost struct CardDeviceView {
    pub index: u64,
    pub name: Seq<char>,
    pub driver: Seq<char>,
    pub state: DeviceState,
    pub is_default: bool,
    pub volume: u64,
    pub is_muted: bool,
    pub card_index: u64,
    pub description: Seq<char>,
    pub bluetooth_protocol: Option<BluetoothProtocol>,
    pub a2dp_codec: Option<A2DPCodec>,
    pub form_factor: FormFactor,
    pub bus: Bus,
}

impl View for CardDevice {
    type V = CardDeviceView;

    open spec fn view(&self) -> CardDeviceView {
        CardDeviceView {
            index: self.index,
            name: self.name@,
            driver: self.driver@,
            state: self.state,
            is_default: self.is_default,
            volume: self.volume,
            is_muted: self.is_muted,
            card_index: self.card_index,
            description: self.description@,
            bluetooth_protocol: self.bluetooth_protocol,
            a2dp_codec: self.a2dp_codec,
            form_factor: self.form_factor,
            bus: self.bus,
        }
    }
}

/// The value of an endpoint no listing line has touched yet.
pub open spec fn card_device_default_view() -> CardDeviceView {
    CardDeviceView {
        index: 0,
        name: Seq::empty(),
        driver: Seq::empty(),
        state: DeviceState::Suspended,
        is_default: false,
        volume: 0,
        is_muted: false,
        card_index: 0,
        description: Seq::empty(),
        bluetooth_protocol: None,
        a2dp_codec: None,
        form_factor: FormFactor::Internal,
        bus: Bus::PCI,
    }
}

impl Default for CardDevice {
    fn default() -> (r: Self)
        ensures
            r@ =~= card_device_default_view(),
    {
        CardDevice {
            index: 0,
            name: String::new(),
            driver: String::new(),
            state: DeviceState::Suspended,
            is_default: false,
            volume: 0,
            is_muted: false,
            card_index: 0,
            description: String::new(),
            bluetooth_protocol: None,
            a2dp_codec: None,
            form_factor: FormFactor::Internal,
            bus: Bus::PCI,
        }
    }
}

/// A raw channel value out of 65535 as a whole percentage point, rounded to
/// nearest with halves rounded up.
pub open spec fn volume_pct(raw: nat) -> nat {
    (raw * 200 + 65535) / 131070
}

/// The raw channel value a whole percentage point stands for, rounded to
/// nearest; points above 100 are capped there first.
pub open spec fn volume_raw(pct: nat) -> nat {
    ((if pct > 100 {
        100
    } else {
        pct
    }) * 65535 + 50) / 100
}

/// Converts a percentage back to the raw channel value the control process
/// expects when a volume is set.
pub fn volume_raw_of_pct(pct: u64) -> (r: u64)
    ensures
        r as nat == volume_raw(pct as nat),
{
    let p: u64 = if pct > 100 {
        100
    } else {
        pct
    };
    (p * 65535 + 50) / 100
}

/// The position of the first endpoint marked default, scanning in listing
/// order.
pub fn find_default(devices: &Vec<CardDevice>) -> (r: Option<usize>)
    ensures
        match r {
            Some(i) => i < devices@.len() && devices@[i as int].is_default && (forall|j: int|
                0 <= j < i ==> !devices@[j].is_default),
            None => forall|j: int| 0 <= j < devices@.len() ==> !devices@[j].is_default,
        },
{
    let n = devices.len();
    let mut i: usize = 0;
    while i < n
        invariant
            0 <= i <= n,
            n == devices@.len(),
            forall|j: int| 0 <= j < i ==> !devices@[j].is_default,
        decreases n - i,
    {
        if devices[i].is_default {
            return Some(i);
        }
        i = i + 1;
    }
    None
}

} // verus!
