//! The physical form factor of an endpoint or card.

use vstd::prelude::*;

use crate::text::{eq_ignore_ascii_case, seq_eq_ci};

verus! {

#[derive(Clone, Copy, Debug, PartialEq, Eq, Structural)]
pub enum FormFactor {
    Internal,
    Headphones,
    Webcam,
    Headset,
}

/// The form factor a listing token denotes, compared case-insensitively.
pub open spec fn form_factor_of_token(s: Seq<char>) -> Option<FormFactor> {
    if seq_eq_ci(s, "internal"@) {
        Some(FormFactor::Internal)
    } else if seq_eq_ci(s, "headphone"@) {
        Some(FormFactor::Headphones)
    } else if seq_eq_ci(s, "webcam"@) {
        Some(FormFactor::Webcam)
    } else if seq_eq_ci(s, "headset"@) {
        Some(FormFactor::Headset)
    } else {
        None
    }
}

/// The human-readable name of a form factor.
pub open spec fn form_factor_display(f: FormFactor) -> Seq<char> {
    match f {
        FormFactor::Internal => "internal"@,
        FormFactor::Headphones => "headphones"@,
        FormFactor::Webcam => "webcam"@,
        FormFactor::Headset => "headset"@,
    }
}

impl FormFactor {
    /// Reads a listing token; `None` when it names no form factor.
    pub fn try_from_pa_str(value: &str) -> (r: Option<FormFactor>)
        ensures
            r == form_factor_of_token(value@),
    {
        if eq_ignore_ascii_case(value, "internal") {
            Some(FormFactor::Internal)
        } else if eq_ignore_ascii_case(value, "headphone") {
            Some(FormFactor::Headphones)
        } else if eq_ignore_ascii_case(value, "webcam") {
            Some(FormFactor::Webcam)
        } else if eq_ignore_ascii_case(value, "headset") {
            Some(FormFactor::Headset)
        } else {
            None
        }
    }

    /// Reads a listing token that is known to name a form factor.
    pub fn from_pa_str(value: &str) -> (r: FormFactor)
        requires
            form_factor_of_token(value@) is Some,
        ensures
            Some(r) == form_factor_of_token(value@),
    {
        match Self::try_from_pa_str(value) {
            Some(f) => f,
            None => vstd::pervasive::unreached(),
        }
    }

    pub fn to_display_string(&self) -> (r: String)
        ensures
            r@ == form_factor_display(*self),
    {
        match self {
            FormFactor::Internal => "internal".to_owned(),
            FormFactor::Headphones => "headphones".to_owned(),
            FormFactor::Webcam => "webcam".to_owned(),
            FormFactor::Headset => "headset".to_owned(),
        }
    }
}

impl Default for FormFactor {
    fn default() -> (r: Self)
        ensures
            r == FormFactor::Internal,
    {
        FormFactor::Internal
    }
}

} // verus!
