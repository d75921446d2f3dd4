//! The broadcast core: a topic-keyed registry of consumer sender handles,
//! owned by one task. Consumers register on a topic; a publication is
//! delivered to every registered sender in registration order, and senders
//! whose channel turned out dead are pruned before the next publication.
//!
//! The registry holds opaque `u64` sender handles; the runtime glue around
//! the library maps them to real channels, performs the sends of one
//! publication in the order `delivery_order` gives, and reports each
//! send's outcome back through `record_results`.

pub mod message;
pub mod message_register;
pub mod message_state;
pub mod message_topic;

use vstd::prelude::*;

use self::message_topic::MessageTopic;

verus! {

/// The senders registered on one topic, in registration order.
pub struct TopicSenders {
    pub topic: MessageTopic,
    pub senders: Vec<u64>,
}

/// The broadcast registry.
pub struct Broker {
    pub topics: Vec<TopicSenders>,
}

/// The senders the first entry of `s` for topic `t` holds; none when no
/// entry does.
pub open spec fn senders_of_seq(s: Seq<TopicSenders>, t: MessageTopic) -> Seq<u64>
    decreases s.len(),
{
    if s.len() == 0 {
        Seq::empty()
    } else if s[0].topic == t {
        s[0].senders@
    } else {
        senders_of_seq(s.drop_first(), t)
    }
}

/// The registered senders that survive one publication: exactly those
/// whose delivery succeeded, in their old order.
pub open spec fn mask_filter(s: Seq<u64>, m: Seq<bool>) -> Seq<u64>
    decreases s.len(),
{
    if s.len() == 0 || m.len() == 0 {
        Seq::empty()
    } else {
        mask_filter(s.drop_last(), m.drop_last()) + if m.last() {
            seq![s.last()]
        } else {
            Seq::empty()
        }
    }
}

proof fn lemma_senders_absent(s: Seq<TopicSenders>, t: MessageTopic)
    requires
        forall|j: int| 0 <= j < s.len() ==> s[j].topic != t,
    ensures
        senders_of_seq(s, t) == Seq::<u64>::empty(),
    decreases s.len(),
{
    if s.len() > 0 {
        lemma_senders_absent(s.drop_first(), t);
    }
}

proof fn lemma_senders_first(s: Seq<TopicSenders>, i: int, t: MessageTopic)
    requires
        0 <= i < s.len(),
        s[i].topic == t,
        forall|j: int| 0 <= j < i ==> s[j].topic != t,
    ensures
        senders_of_seq(s, t) == s[i].senders@,
    decreases i,
{
    if i > 0 {
        lemma_senders_first(s.drop_first(), i - 1, t);
    }
}

proof fn lemma_senders_update(s: Seq<TopicSenders>, i: int, e: TopicSenders, t: MessageTopic)
    requires
        0 <= i < s.len(),
        s[i].topic == t,
        e.topic == t,
        forall|j: int| 0 <= j < i ==> s[j].topic != t,
    ensures
        senders_of_seq(s.update(i, e), t) == e.senders@,
        forall|t2: MessageTopic|
            t2 != t ==> senders_of_seq(s.update(i, e), t2) == senders_of_seq(s, t2),
    decreases i,
{
    let u = s.update(i, e);
    if i == 0 {
        assert(u[0] == e);
        assert(u.drop_first() =~= s.drop_first());
        assert forall|t2: MessageTopic| t2 != t implies senders_of_seq(u, t2) == senders_of_seq(
            s,
            t2,
        ) by {
            assert(senders_of_seq(u, t2) == senders_of_seq(u.drop_first(), t2));
            assert(senders_of_seq(s, t2) == senders_of_seq(s.drop_first(), t2));
        }
    } else {
        assert(u[0] == s[0]);
        assert(u.drop_first() =~= s.drop_first().update(i - 1, e));
        lemma_senders_update(s.drop_first(), i - 1, e, t);
        assert(senders_of_seq(u, t) == senders_of_seq(u.drop_first(), t));
        assert forall|t2: MessageTopic| t2 != t implies senders_of_seq(u, t2) == senders_of_seq(
            s,
            t2,
        ) by {
            if s[0].topic == t2 {
            } else {
                assert(senders_of_seq(u, t2) == senders_of_seq(u.drop_first(), t2));
                assert(senders_of_seq(s, t2) == senders_of_seq(s.drop_first(), t2));
            }
        }
    }
}

proof fn lemma_senders_push(s: Seq<TopicSenders>, e: TopicSenders)
    requires
        forall|j: int| 0 <= j < s.len() ==> s[j].topic != e.topic,
    ensures
        senders_of_seq(s.push(e), e.topic) == e.senders@,
        forall|t2: MessageTopic|
            t2 != e.topic ==> senders_of_seq(s.push(e), t2) == senders_of_seq(s, t2),
    decreases s.len(),
{
    let u = s.push(e);
    if s.len() == 0 {
        assert(u[0] == e);
        assert forall|t2: MessageTopic| t2 != e.topic implies senders_of_seq(u, t2)
            == senders_of_seq(s, t2) by {
            assert(u.drop_first() =~= Seq::<TopicSenders>::empty());
            assert(senders_of_seq(u, t2) == senders_of_seq(u.drop_first(), t2));
        }
    } else {
        assert(u[0] == s[0]);
        assert(u.drop_first() =~= s.drop_first().push(e));
        lemma_senders_push(s.drop_first(), e);
        assert(senders_of_seq(u, e.topic) == senders_of_seq(u.drop_first(), e.topic));
        assert forall|t2: MessageTopic| t2 != e.topic implies senders_of_seq(u, t2)
            == senders_of_seq(s, t2) by {
            if s[0].topic == t2 {
            } else {
                assert(senders_of_seq(u, t2) == senders_of_seq(u.drop_first(), t2));
                assert(senders_of_seq(s, t2) == senders_of_seq(s.drop_first(), t2));
            }
        }
    }
}

impl Broker {
    /// The senders registered on a topic, in registration order.
    pub open spec fn senders_of(&self, t: MessageTopic) -> Seq<u64> {
        senders_of_seq(self.topics@, t)
    }

    /// A registry with no consumer on any topic.
    pub fn new() -> (r: Broker)
        ensures
            forall|t: MessageTopic| r.senders_of(t) == Seq::<u64>::empty(),
    {
        Broker { topics: Vec::new() }
    }

    /// The position of the entry for `t`, scanning from the front.
    fn find_topic(&self, t: MessageTopic) -> (r: Option<usize>)
        ensures
            match r {
                Some(i) => i < self.topics@.len() && self.topics@[i as int].topic == t && (forall|
                    j: int,
                |
                    0 <= j < i ==> self.topics@[j].topic != t),
                None => forall|j: int| 0 <= j < self.topics@.len() ==> self.topics@[j].topic != t,
            },
    {
        let n = self.topics.len();
        let mut i: usize = 0;
        while i < n
            invariant
                0 <= i <= n,
                n == self.topics@.len(),
                forall|j: int| 0 <= j < i ==> self.topics@[j].topic != t,
            decreases n - i,
        {
            if self.topics[i].topic == t {
                return Some(i);
            }
            i = i + 1;
        }
        None
    }

    /// Registers a consumer: its handle is appended to the topic's list,
    /// which is created when absent. No deduplication is done — a consumer
    /// registering twice is delivered to twice.
    pub fn register(&mut self, topic: MessageTopic, sender: u64)
        ensures
            final(self).senders_of(topic) == old(self).senders_of(topic).push(sender),
            forall|t2: MessageTopic|
                t2 != topic ==> final(self).senders_of(t2) == old(self).senders_of(t2),
    {
        let found = self.find_topic(topic);
        match found {
            Some(i) => {
                proof {
                    lemma_senders_first(self.topics@, i as int, topic);
                }
                let mut e = self.topics.remove(i);
                e.senders.push(sender);
                self.topics.insert(i, e);
                proof {
                    assert(self.topics@ =~= old(self).topics@.update(
                        i as int,
                        self.topics@[i as int],
                    ));
                    lemma_senders_update(
                        old(self).topics@,
                        i as int,
                        self.topics@[i as int],
                        topic,
                    );
                }
            },
            None => {
                proof {
                    lemma_senders_absent(self.topics@, topic);
                }
                let mut senders: Vec<u64> = Vec::new();
                senders.push(sender);
                let e = TopicSenders { topic, senders };
                proof {
                    assert(e.senders@ =~= old(self).senders_of(topic).push(sender));
                }
                self.topics.push(e);
                proof {
                    lemma_senders_push(old(self).topics@, e);
                }
            },
        }
    }

    /// The delivery plan of one publication: every sender registered on
    /// the topic at this moment, in registration order. A topic nobody
    /// registered on yields an empty plan — publishing to it is a no-op.
    pub fn delivery_order(&self, topic: MessageTopic) -> (r: Vec<u64>)
        ensures
            r@ == self.senders_of(topic),
    {
        match self.find_topic(topic) {
            None => {
                proof {
                    lemma_senders_absent(self.topics@, topic);
                }
                Vec::new()
            },
            Some(i) => {
                proof {
                    lemma_senders_first(self.topics@, i as int, topic);
                }
                let e = &self.topics[i];
                let m = e.senders.len();
                let mut out: Vec<u64> = Vec::new();
                let mut j: usize = 0;
                while j < m
                    invariant
                        0 <= j <= m,
                        m == e.senders@.len(),
                        out@ =~= e.senders@.take(j as int),
                    decreases m - j,
                {
                    out.push(e.senders[j]);
                    j = j + 1;
                }
                proof {
                    assert(e.senders@.take(m as int) =~= e.senders@);
                }
                out
            },
        }
    }

    /// Prunes after one publication: `results` reports, sender by sender
    /// in delivery order, whether its send was accepted; the senders whose
    /// sends failed are dropped from the topic before the next
    /// publication.
    pub fn record_results(&mut self, topic: MessageTopic, results: &Vec<bool>)
        requires
            results@.len() == old(self).senders_of(topic).len(),
        ensures
            final(self).senders_of(topic) == mask_filter(old(self).senders_of(topic), results@),
            forall|t2: MessageTopic|
                t2 != topic ==> final(self).senders_of(t2) == old(self).senders_of(t2),
    {
        let found = self.find_topic(topic);
        match found {
            None => {
                proof {
                    lemma_senders_absent(self.topics@, topic);
                }
            },
            Some(i) => {
                proof {
                    lemma_senders_first(self.topics@, i as int, topic);
                }
                let mut e = self.topics.remove(i);
                let m = e.senders.len();
                let mut kept: Vec<u64> = Vec::new();
                proof {
                    assert(e.senders@.take(0) =~= Seq::<u64>::empty());
                    assert(results@.take(0) =~= Seq::<bool>::empty());
                }
                let mut j: usize = 0;
                while j < m
                    invariant
                        0 <= j <= m,
                        m == e.senders@.len(),
                        m == results@.len(),
                        kept@ == mask_filter(e.senders@.take(j as int), results@.take(j as int)),
                    decreases m - j,
                {
                    proof {
                        assert(e.senders@.take(j + 1).drop_last() =~= e.senders@.take(j as int));
                        assert(results@.take(j + 1).drop_last() =~= results@.take(j as int));
                        assert(e.senders@.take(j + 1).last() == e.senders@[j as int]);
                        assert(results@.take(j + 1).last() == results@[j as int]);
                    }
                    if results[j] {
                        kept.push(e.senders[j]);
                    }
                    proof {
                        assert(kept@ =~= mask_filter(e.senders@.take(j + 1), results@.take(j + 1)));
                    }
                    j = j + 1;
                }
                proof {
                    assert(e.senders@.take(m as int) =~= e.senders@);
                    assert(results@.take(m as int) =~= results@);
                }
                e.senders = kept;
                self.topics.insert(i, e);
                proof {
                    assert(self.topics@ =~= old(self).topics@.update(
                        i as int,
                        self.topics@[i as int],
                    ));
                    lemma_senders_update(
                        old(self).topics@,
                        i as int,
                        self.topics@[i as int],
                        topic,
                    );
                }
            },
        }
    }
}

/// Broadcast law: starting from a topic with no consumers, registering two
/// and publishing once delivers to both, in registration order; when the
/// first consumer's channel then fails its send, pruning by the delivery
/// results leaves only the second consumer, and the first is no longer
/// registered on the topic.
pub proof fn lemma_broadcast_two_consumers(
    b0: Broker,
    b1: Broker,
    b2: Broker,
    b3: Broker,
    t: MessageTopic,
    a: u64,
    b: u64,
)
    requires
        b0.senders_of(t).len() == 0,
        b1.senders_of(t) == b0.senders_of(t).push(a),
        b2.senders_of(t) == b1.senders_of(t).push(b),
        b3.senders_of(t) == mask_filter(b2.senders_of(t), seq![false, true]),
        a != b,
    ensures
        b2.senders_of(t) == seq![a, b],
        b3.senders_of(t) == seq![b],
        !b3.senders_of(t).contains(a),
{
    assert(b2.senders_of(t) =~= seq![a, b]);
    let s2 = seq![a, b];
    let m = seq![false, true];
    assert(s2.drop_last() =~= seq![a]);
    assert(m.drop_last() =~= seq![false]);
    assert(seq![a].drop_last() =~= Seq::<u64>::empty());
    assert(seq![false].drop_last() =~= Seq::<bool>::empty());
    assert(mask_filter(Seq::<u64>::empty(), Seq::<bool>::empty()) =~= Seq::<u64>::empty());
    assert(mask_filter(seq![a], seq![false]) =~= Seq::<u64>::empty());
    assert(b3.senders_of(t) =~= seq![b]);
    assert(forall|i: int| 0 <= i < seq![b].len() ==> seq![b][i] != a);
}

} // verus!
