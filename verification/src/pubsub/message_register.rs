//! A consumer's registration: the topic it wants and the opaque handle of
//! its receiving channel's sender, as the runtime glue numbers them.

use vstd::prelude::*;

use super::message_topic::MessageTopic;

verus! {

#[derive(Clone, Copy, Debug, PartialEq, Eq, Structural)]
pub struct MessageRegister {
    pub topic: MessageTopic,
    pub sender: u64,
}

impl MessageRegister {
    pub fn new(topic: MessageTopic, sender: u64) -> (r: Self)
        ensures
            r.topic == topic,
            r.sender == sender,
    {
        MessageRegister { topic, sender }
    }

    pub fn topic(&self) -> (r: MessageTopic)
        ensures
            r == self.topic,
    {
        self.topic
    }

    pub fn tx(&self) -> (r: u64)
        ensures
            r == self.sender,
    {
        self.sender
    }
}

} // verus!
