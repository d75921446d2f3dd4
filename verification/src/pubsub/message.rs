//! The closed set of instruction shapes the broadcast core processes.

use vstd::prelude::*;

use crate::device::card::Card;
use crate::device::card_device::CardDevice;

use super::message_state::MessageState;
use super::message_topic::MessageTopic;

verus! {

/// One instruction: sign a consumer up for a topic, or carry a snapshot.
/// A sender is an opaque handle the runtime glue assigns to a consumer's
/// receiving channel.
#[derive(Clone, Debug)]
pub enum Message {
    Register { topic: MessageTopic, sender: u64 },
    AudioState { state: MessageState },
}

impl Message {
    pub fn new_register(topic: MessageTopic, sender: u64) -> (r: Self)
        ensures
            r == (Message::Register { topic, sender }),
    {
        Message::Register { topic, sender }
    }

    /// Packages one poll's parse results and its timestamp as a snapshot
    /// publication.
    pub fn new_audio_state(
        cards: Vec<Card>,
        sources: Vec<CardDevice>,
        sinks: Vec<CardDevice>,
        timestamp: u128,
    ) -> (r: Self)
        ensures
            r matches Message::AudioState { state } && state.cards == cards && state.sources
                == sources && state.sinks == sinks && state.timestamp == timestamp,
    {
        Message::AudioState { state: MessageState::new(cards, sources, sinks, timestamp) }
    }
}

} // verus!
