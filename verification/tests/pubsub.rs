use cctl::device::card::Card;
use cctl::device::card_device::CardDevice;
use cctl::pubsub::message::Message;
use cctl::pubsub::message_register::MessageRegister;
use cctl::pubsub::message_state::MessageState;
use cctl::pubsub::message_topic::MessageTopic;
use cctl::pubsub::Broker;

#[test]
fn broadcast_delivers_in_registration_order_and_prunes_dead_senders() {
    let mut broker = Broker::new();
    broker.register(MessageTopic::AudioState, 7);
    broker.register(MessageTopic::AudioState, 9);

    // One publication reaches both consumers, in registration order.
    let plan = broker.delivery_order(MessageTopic::AudioState);
    assert_eq!(plan, vec![7, 9]);

    // The first consumer's channel is gone: its send fails, the other
    // succeeds, and the failed sender is pruned from the registry.
    broker.record_results(MessageTopic::AudioState, &vec![false, true]);
    let plan = broker.delivery_order(MessageTopic::AudioState);
    assert_eq!(plan, vec![9]);
    assert!(!plan.contains(&7));
}

#[test]
fn registering_twice_delivers_twice() {
    let mut broker = Broker::new();
    broker.register(MessageTopic::AudioState, 4);
    broker.register(MessageTopic::AudioState, 4);
    assert_eq!(broker.delivery_order(MessageTopic::AudioState), vec![4, 4]);
}

#[test]
fn publish_to_unregistered_topic_is_a_no_op() {
    let broker = Broker::new();
    assert!(broker.delivery_order(MessageTopic::AudioState).is_empty());
}

#[test]
fn topics_are_independent() {
    let mut broker = Broker::new();
    broker.register(MessageTopic::AudioState, 1);
    broker.register(MessageTopic::Register, 2);
    broker.record_results(MessageTopic::Register, &vec![false]);
    assert_eq!(broker.delivery_order(MessageTopic::AudioState), vec![1]);
    assert!(broker.delivery_order(MessageTopic::Register).is_empty());
}

#[test]
fn messages_carry_their_payload() {
    let reg = MessageRegister::new(MessageTopic::AudioState, 12);
    assert_eq!(reg.topic(), MessageTopic::AudioState);
    assert_eq!(reg.tx(), 12);

    let m = Message::new_register(MessageTopic::AudioState, 12);
    match m {
        Message::Register { topic, sender } => {
            assert_eq!(topic, MessageTopic::AudioState);
            assert_eq!(sender, 12);
        },
        Message::AudioState { .. } => panic!("wrong variant"),
    }

    let mut source = CardDevice::default();
    source.index = 2;
    let snapshot = MessageState::new(vec![Card::default()], vec![source], Vec::new(), 1234);
    assert_eq!(snapshot.cards.len(), 1);
    assert_eq!(snapshot.sources().len(), 1);
    assert_eq!(snapshot.sources()[0].index, 2);
    assert!(snapshot.sinks().is_empty());
    assert_eq!(snapshot.timestamp, 1234);

    let empty = MessageState::default();
    assert!(empty.cards.is_empty());
    assert_eq!(empty.timestamp, 0);
}
