//! One immutable snapshot of the audio state: all cards, sources and
//! sinks, with the moment it was captured.

use vstd::prelude::*;

use crate::device::card::Card;
use crate::device::card_device::CardDevice;

verus! {

/// A snapshot. It is built fresh by the producer from one poll of the
/// parsers and never mutated afterwards; the timestamp is supplied by the
/// caller, as milliseconds of wall-clock time.
#[derive(Clone, Debug)]
pub struct MessageState {
    pub cards: Vec<Card>,
    pub sources: Vec<CardDevice>,
    pub sinks: Vec<CardDevice>,
    pub timestamp: u128,
}

impl MessageState {
    /// Packages one poll's parse results and its timestamp.
    pub fn new(
        cards: Vec<Card>,
        sources: Vec<CardDevice>,
        sinks: Vec<CardDevice>,
        timestamp: u128,
    ) -> (r: MessageState)
        ensures
            r.cards == cards,
            r.sources == sources,
            r.sinks == sinks,
            r.timestamp == timestamp,
    {
        MessageState { cards, sources, sinks, timestamp }
    }

    pub fn sources(&self) -> (r: &Vec<CardDevice>)
        ensures
            r == &self.sources,
    {
        &self.sources
    }

    pub fn sinks(&self) -> (r: &Vec<CardDevice>)
        ensures
            r == &self.sinks,
    {
        &self.sinks
    }
}

impl Default for MessageState {
    /// An empty snapshot from the epoch.
    fn default() -> (r: Self)
        ensures
            r.cards@.len() == 0,
            r.sources@.len() == 0,
            r.sinks@.len() == 0,
            r.timestamp == 0,
    {
        MessageState { cards: Vec::new(), sources: Vec::new(), sinks: Vec::new(), timestamp: 0 }
    }
}

} // verus!
