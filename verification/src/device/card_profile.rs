//! A selectable operating profile of a card: a bluetooth connection mode
//! combined with a codec, or the universal `Off`.

use vstd::prelude::*;

use crate::text::{eq_ignore_ascii_case, seq_eq_ci};

verus! {

#[derive(Clone, Copy, Debug, PartialEq, Eq, Structural)]
pub enum CardProfile {
    HeadsetHeadUnit,
    A2DPSinkSBC,
    A2DPSinkAAC,
    A2DPSinkAptX,
    A2DPSinkAptXHD,
    A2DPSinkLDAC,
    Off,
}

/// The profile a listing token denotes, compared case-insensitively.
pub open spec fn card_profile_of_token(s: Seq<char>) -> Option<CardProfile> {
    if seq_eq_ci(s, "headset_head_unit"@) {
        Some(CardProfile::HeadsetHeadUnit)
    } else if seq_eq_ci(s, "a2dp_sink_sbc"@) {
        Some(CardProfile::A2DPSinkSBC)
    } else if seq_eq_ci(s, "a2dp_sink_aac"@) {
        Some(CardProfile::A2DPSinkAAC)
    } else if seq_eq_ci(s, "a2dp_sink_aptx"@) {
        Some(CardProfile::A2DPSinkAptX)
    } else if seq_eq_ci(s, "a2dp_sink_aptx_hd"@) {
        Some(CardProfile::A2DPSinkAptXHD)
    } else if seq_eq_ci(s, "a2dp_sink_ldac"@) {
        Some(CardProfile::A2DPSinkLDAC)
    } else if seq_eq_ci(s, "off"@) {
        Some(CardProfile::Off)
    } else {
        None
    }
}

/// The control-process token of a profile.
pub open spec fn card_profile_token(p: CardProfile) -> Seq<char> {
    match p {
        CardProfile::HeadsetHeadUnit => "headset_head_unit"@,
        CardProfile::A2DPSinkSBC => "a2dp_sink_sbc"@,
        CardProfile::A2DPSinkAAC => "a2dp_sink_aac"@,
        CardProfile::A2DPSinkAptX => "a2dp_sink_aptx"@,
        CardProfile::A2DPSinkAptXHD => "a2dp_sink_aptx_hd"@,
        CardProfile::A2DPSinkLDAC => "a2dp_sink_ldac"@,
        CardProfile::Off => "off"@,
    }
}

/// The human-readable name of a profile.
pub open spec fn card_profile_display(p: CardProfile) -> Seq<char> {
    match p {
        CardProfile::HeadsetHeadUnit => "Headset Head Unit (HSP/HFP)"@,
        CardProfile::A2DPSinkSBC => "High Fidelity Playback (A2DP Sink: SBC"@,
        CardProfile::A2DPSinkAAC => "High Fidelity Playback (A2DP Sink: AAC"@,
        CardProfile::A2DPSinkAptX => "High Fidelity Playback (A2DP Sink: AptX"@,
        CardProfile::A2DPSinkAptXHD => "High Fidelity Playback (A2DP Sink: AptXHD"@,
        CardProfile::A2DPSinkLDAC => "High Fidelity Playback (A2DP Sink: LDAC"@,
        CardProfile::Off => "Off"@,
    }
}

impl CardProfile {
    /// Reads a listing token; `None` when it names no profile.
    pub fn try_from_pa_str(value: &str) -> (r: Option<CardProfile>)
        ensures
            r == card_profile_of_token(value@),
    {
        if eq_ignore_ascii_case(value, "headset_head_unit") {
            Some(CardProfile::HeadsetHeadUnit)
        } else if eq_ignore_ascii_case(value, "a2dp_sink_sbc") {
            Some(CardProfile::A2DPSinkSBC)
        } else if eq_ignore_ascii_case(value, "a2dp_sink_aac") {
            Some(CardProfile::A2DPSinkAAC)
        } else if eq_ignore_ascii_case(value, "a2dp_sink_aptx") {
            Some(CardProfile::A2DPSinkAptX)
        } else if eq_ignore_ascii_case(value, "a2dp_sink_aptx_hd") {
            Some(CardProfile::A2DPSinkAptXHD)
        } else if eq_ignore_ascii_case(value, "a2dp_sink_ldac") {
            Some(CardProfile::A2DPSinkLDAC)
        } else if eq_ignore_ascii_case(value, "off") {
            Some(CardProfile::Off)
        } else {
            None
        }
    }

    /// Reads a listing token that is known to name a profile.
    pub fn from_pa_str(value: &str) -> (r: CardProfile)
        requires
            card_profile_of_token(value@) is Some,
        ensures
            Some(r) == card_profile_of_token(value@),
    {
        match Self::try_from_pa_str(value) {
            Some(p) => p,
            None => vstd::pervasive::unreached(),
        }
    }

    /// The token under which the control process knows the profile.
    pub fn to_pa_str(&self) -> (r: String)
        ensures
            r@ == card_profile_token(*self),
    {
        match self {
            CardProfile::HeadsetHeadUnit => "headset_head_unit".to_owned(),
            CardProfile::A2DPSinkSBC => "a2dp_sink_sbc".to_owned(),
            CardProfile::A2DPSinkAAC => "a2dp_sink_aac".to_owned(),
            CardProfile::A2DPSinkAptX => "a2dp_sink_aptx".to_owned(),
            CardProfile::A2DPSinkAptXHD => "a2dp_sink_aptx_hd".to_owned(),
            CardProfile::A2DPSinkLDAC => "a2dp_sink_ldac".to_owned(),
            CardProfile::Off => "off".to_owned(),
        }
    }

    pub fn to_display_string(&self) -> (r: String)
        ensures
            r@ == card_profile_display(*self),
    {
        match self {
            CardProfile::HeadsetHeadUnit => "Headset Head Unit (HSP/HFP)".to_owned(),
            CardProfile::A2DPSinkSBC => "High Fidelity Playback (A2DP Sink: SBC".to_owned(),
            CardProfile::A2DPSinkAAC => "High Fidelity Playback (A2DP Sink: AAC".to_owned(),
            CardProfile::A2DPSinkAptX => "High Fidelity Playback (A2DP Sink: AptX".to_owned(),
            CardProfile::A2DPSinkAptXHD => "High Fidelity Playback (A2DP Sink: AptXHD".to_owned(),
            CardProfile::A2DPSinkLDAC => "High Fidelity Playback (A2DP Sink: LDAC".to_owned(),
            CardProfile::Off => "Off".to_owned(),
        }
    }
}

impl Default for CardProfile {
    fn default() -> (r: Self)
        ensures
            r == CardProfile::Off,
    {
        CardProfile::Off
    }
}

} // verus!
