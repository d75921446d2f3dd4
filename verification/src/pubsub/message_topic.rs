//! The named channels of the broadcast core.

use vstd::prelude::*;

verus! {

/// A topic groups related registrations and publications: `Register` is
/// the control topic on which consumers sign up, `AudioState` carries the
/// periodic snapshots.
#[derive(Clone, Copy, Debug, PartialEq, Eq, Structural, Hash)]
pub enum MessageTopic {
    Register,
    AudioState,
}

} // verus!
