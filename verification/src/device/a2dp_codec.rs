//! The audio codec of an A2DP bluetooth connection.

use vstd::prelude::*;

use crate::text::{eq_ignore_ascii_case, seq_eq_ci};

verus! {

#[derive(Clone, Copy, Debug, PartialEq, Eq, Structural)]
pub enum A2DPCodec {
    SBC,
    AAC,
    AptX,
    AptXHD,
    LDAC,
}

/// The codec a listing token denotes, compared case-insensitively.
pub open spec fn a2dp_codec_of_token(s: Seq<char>) -> Option<A2DPCodec> {
    if seq_eq_ci(s, "sbc"@) {
        Some(A2DPCodec::SBC)
    } else if seq_eq_ci(s, "aac"@) {
        Some(A2DPCodec::AAC)
    } else if seq_eq_ci(s, "aptx"@) {
        Some(A2DPCodec::AptX)
    } else if seq_eq_ci(s, "aptx_hd"@) {
        Some(A2DPCodec::AptXHD)
    } else if seq_eq_ci(s, "ldac"@) {
        Some(A2DPCodec::LDAC)
    } else {
        None
    }
}

/// The human-readable name of a codec.
pub open spec fn a2dp_codec_display(c: A2DPCodec) -> Seq<char> {
    match c {
        A2DPCodec::SBC => "SBC"@,
        A2DPCodec::AAC => "AAC"@,
        A2DPCodec::AptX => "AptX"@,
        A2DPCodec::AptXHD => "AptXHD"@,
        A2DPCodec::LDAC => "LDAC"@,
    }
}

impl A2DPCodec {
    /// Reads a listing token; `None` when it names no codec.
    pub fn try_from_pa_str(value: &str) -> (r: Option<A2DPCodec>)
        ensures
            r == a2dp_codec_of_token(value@),
    {
        if eq_ignore_ascii_case(value, "sbc") {
            Some(A2DPCodec::SBC)
        } else if eq_ignore_ascii_case(value, "aac") {
            Some(A2DPCodec::AAC)
        } else if eq_ignore_ascii_case(value, "aptx") {
            Some(A2DPCodec::AptX)
        } else if eq_ignore_ascii_case(value, "aptx_hd") {
            Some(A2DPCodec::AptXHD)
        } else if eq_ignore_ascii_case(value, "ldac") {
            Some(A2DPCodec::LDAC)
        } else {
            None
        }
    }

    /// Reads a listing token that is known to name a codec.
    pub fn from_pa_str(value: &str) -> (r: A2DPCodec)
        requires
            a2dp_codec_of_token(value@) is Some,
        ensures
            Some(r) == a2dp_codec_of_token(value@),
    {
        match Self::try_from_pa_str(value) {
            Some(c) => c,
            None => vstd::pervasive::unreached(),
        }
    }

    pub fn to_display_string(&self) -> (r: String)
        ensures
            r@ == a2dp_codec_display(*self),
    {
        match self {
            A2DPCodec::SBC => "SBC".to_owned(),
            A2DPCodec::AAC => "AAC".to_owned(),
            A2DPCodec::AptX => "AptX".to_owned(),
            A2DPCodec::AptXHD => "AptXHD".to_owned(),
            A2DPCodec::LDAC => "LDAC".to_owned(),
        }
    }
}

} // verus!
