use vstd::prelude::*;
use crate::error::NodeError;
use crate::registry::Registry;
use crate::text::{copy_bytes, decimal, decimal_text, joined};
use crate::text_set::{TextSet, texts, without};

verus! {

/// Number of messages the publish/subscribe cache keeps.
pub const MESSAGE_CACHE_CAP: usize = 1000;

/// The publish/subscribe settings, as plain values.
#[derive(Debug, Clone, Copy, PartialEq, Eq, Structural)]
pub struct GossipConfig {
    pub heartbeat_interval_secs: u64,
    pub duplicate_cache_time_secs: u64,
    pub mesh_n_high: usize,
    pub mesh_n_low: usize,
    pub mesh_outbound_min: usize,
    pub strict_validation: bool,
}

/// A cached message: its topic, its payload and when it was cached.
pub struct CachedMessage {
    pub topic: String,
    pub data: Vec<u8>,
    pub timestamp: u64,
}

/// What a cached message holds, as plain values.
pub open spec fn message_view(m: CachedMessage) -> (Seq<char>, Seq<u8>, u64) {
    (m.topic@, m.data@, m.timestamp)
}

/// The views of a sequence of cached messages.
pub open spec fn messages_view(s: Seq<CachedMessage>) -> Seq<(Seq<char>, Seq<u8>, u64)> {
    s.map_values(|m: CachedMessage| message_view(m))
}

/// The cache after adding a message: the oldest leaves once the cap is
/// exceeded.
pub open spec fn cache_pushed(
    c: Seq<(Seq<char>, Seq<u8>, u64)>,
    m: (Seq<char>, Seq<u8>, u64),
) -> Seq<(Seq<char>, Seq<u8>, u64)> {
    let l = c.push(m);
    if l.len() > MESSAGE_CACHE_CAP {
        l.subrange(1, l.len() as int)
    } else {
        l
    }
}

/// Whether a cached message is on `topic`.
pub open spec fn on_topic(topic: Seq<char>) -> spec_fn((Seq<char>, Seq<u8>, u64)) -> bool {
    |m: (Seq<char>, Seq<u8>, u64)| m.0 == topic
}

/// Number of messages of `c` on `topic`.
pub open spec fn topic_count(c: Seq<(Seq<char>, Seq<u8>, u64)>, topic: Seq<char>) -> nat {
    c.filter(on_topic(topic)).len()
}

/// The name under which message statistics count the messages of `topic`.
pub open spec fn topic_stat_name(topic: Seq<char>) -> Seq<char> {
    "topic_"@ + topic + "_messages"@
}

/// Whether `name` and `n` are the statistics name and message count of a
/// topic with messages in `c`.
pub open spec fn counts_a_topic(name: Seq<char>, n: u64, c: Seq<(Seq<char>, Seq<u8>, u64)>) -> bool {
    exists|t: Seq<char>|
        name == topic_stat_name(t) && n == topic_count(c, t) && #[trigger] topic_count(c, t) > 0
}

/// Whether some entry after the first of `r` is named `name`.
pub open spec fn lists_name(r: Seq<(String, u64)>, name: Seq<char>) -> bool {
    exists|i: int| 1 <= i < r.len() && #[trigger] r[i].0@ == name
}

/// Counting the messages on a topic one message further.
proof fn lemma_topic_count_step(c: Seq<(Seq<char>, Seq<u8>, u64)>, i: int)
    requires
        0 <= i < c.len(),
    ensures
        forall|t: Seq<char>|
            #[trigger] topic_count(c.take(i + 1), t) == topic_count(c.take(i), t) + if c[i].0 == t {
                1int
            } else {
                0int
            },
{
    assert forall|t: Seq<char>|
        #[trigger] topic_count(c.take(i + 1), t) == topic_count(c.take(i), t) + if c[i].0 == t {
            1int
        } else {
            0int
        } by {
        assert(c.take(i + 1) =~= c.take(i) + seq![c[i]]);
        Seq::filter_distributes_over_add(c.take(i), seq![c[i]], on_topic(t));
        reveal_with_fuel(Seq::filter, 2);
        if c[i].0 == t {
            assert(seq![c[i]].filter(on_topic(t)) =~= seq![c[i]]);
        } else {
            assert(seq![c[i]].filter(on_topic(t)) =~= Seq::<(Seq<char>, Seq<u8>, u64)>::empty());
        }
    }
}

/// No topic has more messages than the cache.
proof fn lemma_topic_count_bound(c: Seq<(Seq<char>, Seq<u8>, u64)>, t: Seq<char>)
    ensures
        topic_count(c, t) <= c.len(),
{
    c.lemma_filter_len(on_topic(t));
}

/// Different topics have different statistics names.
proof fn lemma_stat_name_injective(a: Seq<char>, b: Seq<char>)
    requires
        topic_stat_name(a) == topic_stat_name(b),
    ensures
        a == b,
{
    reveal_strlit("topic_");
    reveal_strlit("_messages");
    assert("topic_"@.len() == 6);
    assert("_messages"@.len() == 9);
    let pa = topic_stat_name(a);
    assert(pa.len() == a.len() + 15);
    assert(topic_stat_name(b).len() == b.len() + 15);
    assert(a.len() == b.len());
    assert forall|i: int| 0 <= i < a.len() implies a[i] == b[i] by {
        assert(pa[6 + i] == a[i]);
        assert(topic_stat_name(b)[6 + i] == b[i]);
    }
    assert(a =~= b);
}

impl CachedMessage {
    /// A field-by-field copy.
    pub fn copy(&self) -> (r: CachedMessage)
        ensures
            message_view(r) == message_view(*self),
    {
        CachedMessage { topic: self.topic.clone(), data: copy_bytes(&self.data), timestamp: self.timestamp }
    }
}

/// Topics, the peers seen on each, and a cache of recent messages.
pub struct GossipsubManager {
    topics: Registry<TextSet>,
    config: GossipConfig,
    message_cache: Vec<CachedMessage>,
}

impl GossipsubManager {
    pub closed spec fn wf(&self) -> bool {
        &&& self.topics.wf()
        &&& forall|k: Seq<char>| #[trigger] self.topics@.contains_key(k) ==> self.topics@[k].wf()
        &&& self.message_cache@.len() <= MESSAGE_CACHE_CAP
    }

    /// The peers of each topic, by topic name.
    pub closed spec fn topic_peers(&self) -> Map<Seq<char>, Seq<Seq<char>>> {
        Map::new(|k: Seq<char>| self.topics@.contains_key(k), |k: Seq<char>| self.topics@[k]@)
    }

    /// The cached messages, oldest first.
    pub closed spec fn cache(&self) -> Seq<(Seq<char>, Seq<u8>, u64)> {
        messages_view(self.message_cache@)
    }

    pub closed spec fn spec_config(&self) -> GossipConfig {
        self.config
    }

    /// No topics, no messages, and the default settings: a ten-second
    /// heartbeat, a sixty-second duplicate cache, mesh bounds four to twelve
    /// with at least two outbound peers, and strict validation.
    pub fn new() -> (r: GossipsubManager)
        ensures
            r.wf(),
            r.topic_peers() == Map::<Seq<char>, Seq<Seq<char>>>::empty(),
            r.cache() == Seq::<(Seq<char>, Seq<u8>, u64)>::empty(),
            r.spec_config() == (GossipConfig {
                heartbeat_interval_secs: 10,
                duplicate_cache_time_secs: 60,
                mesh_n_high: 12,
                mesh_n_low: 4,
                mesh_outbound_min: 2,
                strict_validation: true,
            }),
    {
        let r = GossipsubManager {
            topics: Registry::new(),
            config: GossipConfig {
                heartbeat_interval_secs: 10,
                duplicate_cache_time_secs: 60,
                mesh_n_high: 12,
                mesh_n_low: 4,
                mesh_outbound_min: 2,
                strict_validation: true,
            },
            message_cache: Vec::new(),
        };
        proof {
            assert(r.topic_peers() =~= Map::<Seq<char>, Seq<Seq<char>>>::empty());
            assert(r.cache() =~= Seq::<(Seq<char>, Seq<u8>, u64)>::empty());
        }
        r
    }

    /// The settings.
    pub fn get_config(&self) -> (r: GossipConfig)
        ensures
            r == self.spec_config(),
    {
        self.config
    }

    /// The settings in words: heartbeat interval and duplicate cache time as
    /// whole seconds followed by "s", the validation mode, and the mesh
    /// bounds.
    pub fn get_config_info(&self) -> (r: Vec<(String, String)>)
        ensures
            r@.len() == 5,
            r@[0].0@ == "heartbeat_interval"@ && r@[0].1@ == decimal(
                self.spec_config().heartbeat_interval_secs as nat,
            ) + "s"@,
            r@[1].0@ == "validation_mode"@ && r@[1].1@ == (if self.spec_config().strict_validation {
                "Strict"@
            } else {
                "Permissive"@
            }),
            r@[2].0@ == "mesh_n_high"@ && r@[2].1@ == decimal(self.spec_config().mesh_n_high as nat),
            r@[3].0@ == "mesh_n_low"@ && r@[3].1@ == decimal(self.spec_config().mesh_n_low as nat),
            r@[4].0@ == "duplicate_cache_time"@ && r@[4].1@ == decimal(
                self.spec_config().duplicate_cache_time_secs as nat,
            ) + "s"@,
    {
        let c = self.config;
        let mut info: Vec<(String, String)> = Vec::new();
        info.push(("heartbeat_interval".to_owned(), joined(decimal_text(c.heartbeat_interval_secs).as_str(), "s")));
        info.push((
            "validation_mode".to_owned(),
            if c.strict_validation {
                "Strict".to_owned()
            } else {
                "Permissive".to_owned()
            },
        ));
        info.push(("mesh_n_high".to_owned(), decimal_text(c.mesh_n_high as u64)));
        info.push(("mesh_n_low".to_owned(), decimal_text(c.mesh_n_low as u64)));
        info.push((
            "duplicate_cache_time".to_owned(),
            joined(decimal_text(c.duplicate_cache_time_secs).as_str(), "s"),
        ));
        info
    }

    /// Creates `topic_name` with no peers, replacing an existing topic.
    pub fn create_topic(&mut self, topic_name: String)
        requires
            old(self).wf(),
        ensures
            final(self).wf(),
            final(self).topic_peers() == old(self).topic_peers().insert(
                topic_name@,
                Seq::<Seq<char>>::empty(),
            ),
            final(self).cache() == old(self).cache(),
            final(self).spec_config() == old(self).spec_config(),
    {
        self.topics.insert(topic_name, TextSet::new());
        proof {
            assert(self.topic_peers() =~= old(self).topic_peers().insert(
                topic_name@,
                Seq::<Seq<char>>::empty(),
            ));
        }
    }

    pub fn get_topics(&self) -> (r: Vec<String>)
        requires
            self.wf(),
        ensures
            forall|i: int| 0 <= i < r@.len() ==> self.topic_peers().contains_key(#[trigger] r@[i]@),
            forall|i: int, j: int| 0 <= i < j < r@.len() ==> r@[i]@ != r@[j]@,
            forall|k: Seq<char>|
                #[trigger] self.topic_peers().contains_key(k) ==> exists|i: int|
                    0 <= i < r@.len() && r@[i]@ == k,
    {
        let r = self.topics.keys();
        proof {
            assert forall|k: Seq<char>| #[trigger] self.topic_peers().contains_key(k) implies exists|i: int|
                0 <= i < r@.len() && r@[i]@ == k by {
                assert(self.topics@.contains_key(k));
            }
        }
        r
    }

    /// Removes `topic_name` and its peers; says whether it existed.
    pub fn remove_topic(&mut self, topic_name: String) -> (r: bool)
        requires
            old(self).wf(),
        ensures
            final(self).wf(),
            r == old(self).topic_peers().contains_key(topic_name@),
            final(self).topic_peers() == old(self).topic_peers().remove(topic_name@),
            final(self).cache() == old(self).cache(),
            final(self).spec_config() == old(self).spec_config(),
    {
        let r = self.topics.remove(&topic_name).is_some();
        proof {
            assert(self.topic_peers() =~= old(self).topic_peers().remove(topic_name@));
        }
        r
    }

    pub fn topic_exists(&self, topic_name: String) -> (r: bool)
        requires
            self.wf(),
        ensures
            r == self.topic_peers().contains_key(topic_name@),
    {
        self.topics.contains_key(&topic_name)
    }

    /// Adds `peer_id` to the peers of `topic_name` once; an unknown topic is
    /// `NotFound`.
    pub fn add_peer_to_topic(&mut self, topic_name: String, peer_id: String) -> (r: Result<(), NodeError>)
        requires
            old(self).wf(),
        ensures
            final(self).wf(),
            r is Ok == old(self).topic_peers().contains_key(topic_name@),
            r is Err ==> r == Err::<(), NodeError>(NodeError::NotFound) && final(self).topic_peers()
                == old(self).topic_peers(),
            r is Ok ==> ({
                let ps = old(self).topic_peers()[topic_name@];
                final(self).topic_peers() == old(self).topic_peers().insert(
                    topic_name@,
                    if ps.contains(peer_id@) {
                        ps
                    } else {
                        ps.push(peer_id@)
                    },
                )
            }),
            final(self).cache() == old(self).cache(),
            final(self).spec_config() == old(self).spec_config(),
    {
        match self.topics.remove(&topic_name) {
            Some(mut peers) => {
                peers.add(peer_id);
                self.topics.insert(topic_name, peers);
                proof {
                    let ps = old(self).topic_peers()[topic_name@];
                    assert(self.topic_peers() =~= old(self).topic_peers().insert(
                        topic_name@,
                        if ps.contains(peer_id@) {
                            ps
                        } else {
                            ps.push(peer_id@)
                        },
                    ));
                }
                Ok(())
            },
            None => {
                proof {
                    assert(self.topics@ =~= old(self).topics@);
                }
                Err(NodeError::NotFound)
            },
        }
    }

    /// Removes `peer_id` from the peers of `topic_name`; says whether it was
    /// there.
    pub fn remove_peer_from_topic(&mut self, topic_name: String, peer_id: String) -> (r: bool)
        requires
            old(self).wf(),
        ensures
            final(self).wf(),
            r == (old(self).topic_peers().contains_key(topic_name@) && old(
                self,
            ).topic_peers()[topic_name@].contains(peer_id@)),
            old(self).topic_peers().contains_key(topic_name@) ==> final(self).topic_peers()
                == old(self).topic_peers().insert(
                topic_name@,
                without(old(self).topic_peers()[topic_name@], peer_id@),
            ),
            !old(self).topic_peers().contains_key(topic_name@) ==> final(self).topic_peers()
                == old(self).topic_peers(),
            final(self).cache() == old(self).cache(),
            final(self).spec_config() == old(self).spec_config(),
    {
        match self.topics.remove(&topic_name) {
            Some(mut peers) => {
                let removed = peers.remove(&peer_id);
                self.topics.insert(topic_name, peers);
                proof {
                    assert(self.topic_peers() =~= old(self).topic_peers().insert(
                        topic_name@,
                        without(old(self).topic_peers()[topic_name@], peer_id@),
                    ));
                }
                removed
            },
            None => {
                proof {
                    assert(self.topics@ =~= old(self).topics@);
                }
                false
            },
        }
    }

    /// The peers of `topic_name`, none for an unknown topic.
    pub fn get_topic_peers(&self, topic_name: String) -> (r: Vec<String>)
        requires
            self.wf(),
        ensures
            self.topic_peers().contains_key(topic_name@) ==> texts(r@) == self.topic_peers()[topic_name@],
            !self.topic_peers().contains_key(topic_name@) ==> r@.len() == 0,
    {
        match self.topics.get(&topic_name) {
            Some(peers) => peers.to_vec(),
            None => Vec::new(),
        }
    }

    /// Caches a message on `topic` at time `now` (seconds since the Unix
    /// epoch); the oldest leaves once the cache exceeds its cap.
    pub fn cache_message(&mut self, topic: String, data: Vec<u8>, now: u64)
        requires
            old(self).wf(),
        ensures
            final(self).wf(),
            final(self).cache() == cache_pushed(old(self).cache(), (topic@, data@, now)),
            final(self).topic_peers() == old(self).topic_peers(),
            final(self).spec_config() == old(self).spec_config(),
    {
        let ghost c0 = self.message_cache@;
        let ghost mv = (topic@, data@, now);
        self.message_cache.push(CachedMessage { topic, data, timestamp: now });
        proof {
            assert(messages_view(self.message_cache@) =~= messages_view(c0).push(mv));
        }
        if self.message_cache.len() > MESSAGE_CACHE_CAP {
            let ghost c1 = self.message_cache@;
            let _oldest = self.message_cache.remove(0);
            proof {
                assert(messages_view(self.message_cache@) =~= messages_view(c1).subrange(
                    1,
                    c1.len() as int,
                ));
            }
        }
    }

    /// Copies of the cached messages, oldest first: those on `topic` when it
    /// is given, all otherwise.
    pub fn get_cached_messages(&self, topic: Option<String>) -> (r: Vec<CachedMessage>)
        requires
            self.wf(),
        ensures
            messages_view(r@) == match topic {
                Some(t) => self.cache().filter(on_topic(t@)),
                None => self.cache(),
            },
    {
        let ghost c = self.cache();
        let mut out: Vec<CachedMessage> = Vec::new();
        let mut i: usize = 0;
        while i < self.message_cache.len()
            invariant
                c == self.cache(),
                i <= self.message_cache@.len(),
                messages_view(out@) == match topic {
                    Some(t) => c.take(i as int).filter(on_topic(t@)),
                    None => c.take(i as int),
                },
            decreases self.message_cache@.len() - i,
        {
            let m = &self.message_cache[i];
            let keep = match &topic {
                Some(t) => m.topic == *t,
                None => true,
            };
            let ghost out0 = out@;
            if keep {
                out.push(m.copy());
            }
            proof {
                assert(c.take(i + 1) =~= c.take(i as int).push(c[i as int]));
                assert(c[i as int] == message_view(self.message_cache@[i as int]));
                match &topic {
                    Some(t) => {
                        Seq::filter_distributes_over_add(
                            c.take(i as int),
                            seq![c[i as int]],
                            on_topic(t@),
                        );
                        assert(c.take(i as int) + seq![c[i as int]] =~= c.take(i + 1));
                        reveal_with_fuel(Seq::filter, 2);
                        if keep {
                            assert(seq![c[i as int]].filter(on_topic(t@)) =~= seq![c[i as int]]);
                            assert(messages_view(out@) =~= messages_view(out0).push(c[i as int]));
                        } else {
                            assert(seq![c[i as int]].filter(on_topic(t@)) =~= Seq::<
                                (Seq<char>, Seq<u8>, u64),
                            >::empty());
                            assert(out@ == out0);
                        }
                    },
                    None => {
                        assert(messages_view(out@) =~= messages_view(out0).push(c[i as int]));
                    },
                }
            }
            i = i + 1;
        }
        proof {
            assert(c.take(c.len() as int) =~= c);
        }
        out
    }

    /// The number of cached messages under "total_cached_messages", then,
    /// for each topic with cached messages, their number under
    /// `topic_<topic>_messages`.
    pub fn get_message_stats(&self) -> (r: Vec<(String, u64)>)
        requires
            self.wf(),
        ensures
            r@.len() >= 1,
            r@[0].0@ == "total_cached_messages"@ && r@[0].1 == self.cache().len(),
            forall|i: int| 1 <= i < r@.len() ==> counts_a_topic(#[trigger] r@[i].0@, r@[i].1, self.cache()),
            forall|i: int, j: int| 1 <= i < j < r@.len() ==> r@[i].0@ != r@[j].0@,
            forall|j: int|
                0 <= j < self.cache().len() ==> lists_name(r@, topic_stat_name(#[trigger] self.cache()[j].0)),
    {
        let ghost c = self.cache();
        let mut counts: Registry<u64> = Registry::new();
        let mut i: usize = 0;
        while i < self.message_cache.len()
            invariant
                c == self.cache(),
                self.message_cache@.len() <= MESSAGE_CACHE_CAP,
                i <= self.message_cache@.len(),
                counts.wf(),
                forall|k: Seq<char>|
                    #[trigger] counts@.contains_key(k) ==> exists|t: Seq<char>|
                        #![trigger topic_stat_name(t)]
                        k == topic_stat_name(t) && counts@[k] == topic_count(c.take(i as int), t)
                            && topic_count(c.take(i as int), t) > 0,
                forall|j: int| 0 <= j < i ==> counts@.contains_key(topic_stat_name(#[trigger] c[j].0)),
                forall|t: Seq<char>|
                    #[trigger] topic_count(c.take(i as int), t) > 0 ==> counts@.contains_key(
                        topic_stat_name(t),
                    ),
            decreases self.message_cache@.len() - i,
        {
            let topic = &self.message_cache[i].topic;
            let name = joined(joined("topic_", topic.as_str()).as_str(), "_messages");
            let ghost t = c[i as int].0;
            proof {
                assert(c[i as int] == message_view(self.message_cache@[i as int]));
                assert(name@ == topic_stat_name(t));
                lemma_topic_count_step(c, i as int);
            }
            let n = match counts.get(&name) {
                Some(v) => *v,
                None => 0,
            };
            proof {
                lemma_topic_count_bound(c.take(i as int), t);
                if counts@.contains_key(name@) {
                    let t2 = choose|t2: Seq<char>| #![trigger topic_stat_name(t2)] name@ == topic_stat_name(t2)
                        && counts@[name@] == topic_count(c.take(i as int), t2) && topic_count(c.take(i as int), t2) > 0;
                    lemma_stat_name_injective(t, t2);
                    assert(n == topic_count(c.take(i as int), t));
                } else {
                    assert(!(topic_count(c.take(i as int), t) > 0));
                    assert(n == topic_count(c.take(i as int), t));
                }
                assert(topic_count(c.take(i + 1), t) == n + 1);
            }
            let ghost old_counts = counts@;
            counts.insert(name, n + 1);
            proof {
                assert forall|k: Seq<char>| #[trigger] counts@.contains_key(k) implies exists|t3: Seq<char>|
                    #![trigger topic_stat_name(t3)]
                    k == topic_stat_name(t3) && counts@[k] == topic_count(c.take(i + 1), t3)
                        && topic_count(c.take(i + 1), t3) > 0 by {
                    if k == topic_stat_name(t) {
                        assert(counts@[k] == topic_count(c.take(i + 1), t));
                    } else {
                        let t3 = choose|t3: Seq<char>| #![trigger topic_stat_name(t3)] k == topic_stat_name(t3)
                            && old_counts[k] == topic_count(c.take(i as int), t3) && topic_count(c.take(i as int), t3) > 0;
                        assert(t3 != t);
                        assert(topic_count(c.take(i + 1), t3) == topic_count(c.take(i as int), t3));
                    }
                }
                assert forall|t4: Seq<char>| #[trigger] topic_count(c.take(i + 1), t4) > 0 implies counts@.contains_key(
                    topic_stat_name(t4),
                ) by {
                    if t4 != t {
                        assert(topic_count(c.take(i + 1), t4) == topic_count(c.take(i as int), t4));
                    }
                }
            }
            i = i + 1;
        }
        proof {
            assert(c.take(c.len() as int) =~= c);
        }
        let entries = counts.entries();
        let mut out: Vec<(String, u64)> = Vec::new();
        out.push(("total_cached_messages".to_owned(), self.message_cache.len() as u64));
        let mut j: usize = 0;
        while j < entries.len()
            invariant
                c == self.cache(),
                counts.wf(),
                j <= entries@.len(),
                out@.len() == j + 1,
                out@[0].0@ == "total_cached_messages"@ && out@[0].1 == c.len(),
                forall|a: int|
                    0 <= a < j ==> (#[trigger] out@[a + 1]).0@ == entries@[a].0@ && out@[a + 1].1
                        == entries@[a].1,
                forall|a: int, b: int| 0 <= a < b < entries@.len() ==> entries@[a].0@ != entries@[b].0@,
                forall|k: Seq<char>|
                    #[trigger] counts@.contains_key(k) ==> exists|a: int| 0 <= a < entries@.len() && entries@[a].0@ == k,
                forall|a: int|
                    0 <= a < entries@.len() ==> counts@.contains_key(#[trigger] entries@[a].0@)
                        && counts@[entries@[a].0@] == entries@[a].1,
                forall|k: Seq<char>|
                    #[trigger] counts@.contains_key(k) ==> exists|t: Seq<char>|
                        #![trigger topic_stat_name(t)]
                        k == topic_stat_name(t) && counts@[k] == topic_count(c.take(c.len() as int), t)
                            && topic_count(c.take(c.len() as int), t) > 0,
                forall|b: int| 0 <= b < c.len() ==> counts@.contains_key(topic_stat_name(#[trigger] c[b].0)),
                c.take(c.len() as int) == c,
            decreases entries@.len() - j,
        {
            let (name, count) = &entries[j];
            out.push((name.clone(), *count));
            proof {
                assert(out@[j + 1].0@ == entries@[j as int].0@ && out@[j + 1].1 == entries@[j as int].1);
            }
            j = j + 1;
        }
        proof {
            assert forall|a: int, b: int| 1 <= a < b < out@.len() implies out@[a].0@ != out@[b].0@ by {
                assert(out@[(a - 1) + 1].0@ == entries@[a - 1].0@);
                assert(out@[(b - 1) + 1].0@ == entries@[b - 1].0@);
            }
            assert forall|a: int| 1 <= a < out@.len() implies counts_a_topic(#[trigger] out@[a].0@, out@[a].1, self.cache()) by {
                assert(out@[(a - 1) + 1].0@ == entries@[a - 1].0@);
                let k = entries@[a - 1].0@;
                assert(counts@.contains_key(k));
                let t = choose|t: Seq<char>| #![trigger topic_stat_name(t)] k == topic_stat_name(t)
                    && counts@[k] == topic_count(c.take(c.len() as int), t) && topic_count(c.take(c.len() as int), t) > 0;
                assert(out@[a].0@ == topic_stat_name(t));
                assert(out@[a].1 == topic_count(self.cache(), t));
            }
            assert forall|b: int| 0 <= b < self.cache().len() implies lists_name(out@, topic_stat_name(#[trigger] self.cache()[b].0)) by {
                assert(counts@.contains_key(topic_stat_name(c[b].0)));
                let a = choose|a: int| 0 <= a < entries@.len() && entries@[a].0@ == topic_stat_name(c[b].0);
                assert(out@[a + 1].0@ == entries@[a].0@);
            }
        }
        out
    }

    pub fn clear_message_cache(&mut self)
        requires
            old(self).wf(),
        ensures
            final(self).wf(),
            final(self).cache() == Seq::<(Seq<char>, Seq<u8>, u64)>::empty(),
            final(self).topic_peers() == old(self).topic_peers(),
            final(self).spec_config() == old(self).spec_config(),
    {
        self.message_cache.clear();
        proof {
            assert(self.cache() =~= Seq::<(Seq<char>, Seq<u8>, u64)>::empty());
        }
    }

    pub fn get_topic_count(&self) -> (r: usize)
        requires
            self.wf(),
        ensures
            r == self.topic_peers().dom().len(),
    {
        proof {
            assert(self.topic_peers().dom() =~= self.topics@.dom());
        }
        self.topics.len()
    }

    /// Removes every topic and its peers.
    pub fn clear_topics(&mut self)
        requires
            old(self).wf(),
        ensures
            final(self).wf(),
            final(self).topic_peers() == Map::<Seq<char>, Seq<Seq<char>>>::empty(),
            final(self).cache() == old(self).cache(),
            final(self).spec_config() == old(self).spec_config(),
    {
        self.topics.clear();
        proof {
            assert(self.topic_peers() =~= Map::<Seq<char>, Seq<Seq<char>>>::empty());
        }
    }
}

/// The topics subscribed to through flooding publish/subscribe.
pub struct FloodsubManager {
    subscribed_topics: TextSet,
}

impl FloodsubManager {
    pub closed spec fn wf(&self) -> bool {
        self.subscribed_topics.wf()
    }

    /// The topics, in the order they were added.
    pub closed spec fn topics(&self) -> Seq<Seq<char>> {
        self.subscribed_topics@
    }

    pub fn new() -> (r: FloodsubManager)
        ensures
            r.wf(),
            r.topics() == Seq::<Seq<char>>::empty(),
    {
        FloodsubManager { subscribed_topics: TextSet::new() }
    }

    pub fn add_topic(&mut self, topic: String)
        requires
            old(self).wf(),
        ensures
            final(self).wf(),
            final(self).topics() == if old(self).topics().contains(topic@) {
                old(self).topics()
            } else {
                old(self).topics().push(topic@)
            },
    {
        self.subscribed_topics.add(topic);
    }

    pub fn remove_topic(&mut self, topic: String)
        requires
            old(self).wf(),
        ensures
            final(self).wf(),
            final(self).topics() == without(old(self).topics(), topic@),
    {
        self.subscribed_topics.remove(&topic);
    }

    pub fn get_topics(&self) -> (r: Vec<String>)
        ensures
            texts(r@) == self.topics(),
    {
        self.subscribed_topics.to_vec()
    }
}

/// Request/response protocols by name with their versions, and the requests
/// still waiting for a response.
pub struct RequestResponseManager {
    protocol_configs: Registry<String>,
    pending_requests: Registry<Vec<u8>>,
}

impl RequestResponseManager {
    pub closed spec fn wf(&self) -> bool {
        self.protocol_configs.wf() && self.pending_requests.wf()
    }

    /// The version of each protocol, by name.
    pub closed spec fn protocols(&self) -> Map<Seq<char>, String> {
        self.protocol_configs@
    }

    /// The payload of each pending request, by request identifier.
    pub closed spec fn pending(&self) -> Map<Seq<char>, Vec<u8>> {
        self.pending_requests@
    }

    pub fn new() -> (r: RequestResponseManager)
        ensures
            r.wf(),
            r.protocols() == Map::<Seq<char>, String>::empty(),
            r.pending() == Map::<Seq<char>, Vec<u8>>::empty(),
    {
        RequestResponseManager { protocol_configs: Registry::new(), pending_requests: Registry::new() }
    }

    pub fn add_protocol(&mut self, name: String, version: String)
        requires
            old(self).wf(),
        ensures
            final(self).wf(),
            final(self).protocols() == old(self).protocols().insert(name@, version),
            final(self).pending() == old(self).pending(),
    {
        self.protocol_configs.insert(name, version);
    }

    pub fn get_protocols(&self) -> (r: Vec<String>)
        requires
            self.wf(),
        ensures
            forall|i: int| 0 <= i < r@.len() ==> self.protocols().contains_key(#[trigger] r@[i]@),
            forall|i: int, j: int| 0 <= i < j < r@.len() ==> r@[i]@ != r@[j]@,
            forall|k: Seq<char>|
                #[trigger] self.protocols().contains_key(k) ==> exists|i: int|
                    0 <= i < r@.len() && r@[i]@ == k,
    {
        self.protocol_configs.keys()
    }

    pub fn track_request(&mut self, request_id: String, data: Vec<u8>)
        requires
            old(self).wf(),
        ensures
            final(self).wf(),
            final(self).pending() == old(self).pending().insert(request_id@, data),
            final(self).protocols() == old(self).protocols(),
    {
        self.pending_requests.insert(request_id, data);
    }

    /// Removes a pending request, handing back its payload.
    pub fn complete_request(&mut self, request_id: String) -> (r: Option<Vec<u8>>)
        requires
            old(self).wf(),
        ensures
            final(self).wf(),
            r is Some == old(self).pending().contains_key(request_id@),
            r is Some ==> r->0 == old(self).pending()[request_id@],
            final(self).pending() == old(self).pending().remove(request_id@),
            final(self).protocols() == old(self).protocols(),
    {
        self.pending_requests.remove(&request_id)
    }

    pub fn get_pending_requests(&self) -> (r: Vec<String>)
        requires
            self.wf(),
        ensures
            forall|i: int| 0 <= i < r@.len() ==> self.pending().contains_key(#[trigger] r@[i]@),
            forall|i: int, j: int| 0 <= i < j < r@.len() ==> r@[i]@ != r@[j]@,
            forall|k: Seq<char>|
                #[trigger] self.pending().contains_key(k) ==> exists|i: int|
                    0 <= i < r@.len() && r@[i]@ == k,
    {
        self.pending_requests.keys()
    }
}

/// The limits a relay serves under, as plain values.
#[derive(Debug, Clone, Copy, PartialEq, Eq, Structural)]
pub struct RelayLimits {
    pub max_circuits: u32,
    pub max_circuits_per_peer: u32,
}

/// Whether a reservation made at `timestamp` is at most `max_age` seconds
/// old at `now`, the age taken modulo 2^64.
pub open spec fn reservation_fresh(timestamp: u64, now: u64, max_age: u64) -> bool {
    (if now >= timestamp {
        now - timestamp
    } else {
        now + 0x1_0000_0000_0000_0000 - timestamp
    }) <= max_age
}

/// Relay service state: whether it is on and with what limits, per-peer
/// circuit limits, active circuits and reservation requests.
pub struct RelayManager {
    relay_limits: Option<RelayLimits>,
    circuit_limits: Registry<u32>,
    active_circuits: TextSet,
    reservation_requests: Registry<u64>,
}

impl RelayManager {
    pub closed spec fn wf(&self) -> bool {
        &&& self.circuit_limits.wf()
        &&& self.active_circuits.wf()
        &&& self.reservation_requests.wf()
    }

    pub closed spec fn limits(&self) -> Option<RelayLimits> {
        self.relay_limits
    }

    /// The circuit limit of each peer, by peer identifier.
    pub closed spec fn peer_limits(&self) -> Map<Seq<char>, u32> {
        self.circuit_limits@
    }

    /// The active circuits, in the order they were added.
    pub closed spec fn circuits(&self) -> Seq<Seq<char>> {
        self.active_circuits@
    }

    /// When each peer last asked for a reservation, by peer identifier.
    pub closed spec fn reservations(&self) -> Map<Seq<char>, u64> {
        self.reservation_requests@
    }

    pub fn new() -> (r: RelayManager)
        ensures
            r.wf(),
            r.limits() is None,
            r.peer_limits() == Map::<Seq<char>, u32>::empty(),
            r.circuits() == Seq::<Seq<char>>::empty(),
            r.reservations() == Map::<Seq<char>, u64>::empty(),
    {
        RelayManager {
            relay_limits: None,
            circuit_limits: Registry::new(),
            active_circuits: TextSet::new(),
            reservation_requests: Registry::new(),
        }
    }

    /// Turns the relay on with the given limits.
    pub fn enable_relay(&mut self, max_circuits: u32, max_circuits_per_peer: u32)
        ensures
            final(self).limits() == Some(RelayLimits { max_circuits, max_circuits_per_peer }),
            final(self).peer_limits() == old(self).peer_limits(),
            final(self).circuits() == old(self).circuits(),
            final(self).reservations() == old(self).reservations(),
            final(self).wf() == old(self).wf(),
    {
        self.relay_limits = Some(RelayLimits { max_circuits, max_circuits_per_peer });
    }

    /// Turns the relay off and forgets circuit limits and active circuits.
    pub fn disable_relay(&mut self)
        requires
            old(self).wf(),
        ensures
            final(self).wf(),
            final(self).limits() is None,
            final(self).peer_limits() == Map::<Seq<char>, u32>::empty(),
            final(self).circuits() == Seq::<Seq<char>>::empty(),
            final(self).reservations() == old(self).reservations(),
    {
        self.relay_limits = None;
        self.circuit_limits.clear();
        self.active_circuits.clear();
    }

    pub fn is_relay_enabled(&self) -> (r: bool)
        ensures
            r == self.limits() is Some,
    {
        self.relay_limits.is_some()
    }

    /// The limits the relay serves under, when it is on.
    pub fn get_relay_limits(&self) -> (r: Option<RelayLimits>)
        ensures
            r == self.limits(),
    {
        self.relay_limits
    }

    pub fn set_circuit_limit(&mut self, peer_id: String, limit: u32)
        requires
            old(self).wf(),
        ensures
            final(self).wf(),
            final(self).peer_limits() == old(self).peer_limits().insert(peer_id@, limit),
            final(self).limits() == old(self).limits(),
            final(self).circuits() == old(self).circuits(),
            final(self).reservations() == old(self).reservations(),
    {
        self.circuit_limits.insert(peer_id, limit);
    }

    pub fn get_circuit_limit(&self, peer_id: String) -> (r: Option<u32>)
        requires
            self.wf(),
        ensures
            r is Some == self.peer_limits().contains_key(peer_id@),
            r is Some ==> r->0 == self.peer_limits()[peer_id@],
    {
        match self.circuit_limits.get(&peer_id) {
            Some(l) => Some(*l),
            None => None,
        }
    }

    pub fn add_active_circuit(&mut self, circuit_id: String)
        requires
            old(self).wf(),
        ensures
            final(self).wf(),
            final(self).circuits() == if old(self).circuits().contains(circuit_id@) {
                old(self).circuits()
            } else {
                old(self).circuits().push(circuit_id@)
            },
            final(self).limits() == old(self).limits(),
            final(self).peer_limits() == old(self).peer_limits(),
            final(self).reservations() == old(self).reservations(),
    {
        self.active_circuits.add(circuit_id);
    }

    pub fn remove_active_circuit(&mut self, circuit_id: String) -> (r: bool)
        requires
            old(self).wf(),
        ensures
            final(self).wf(),
            r == old(self).circuits().contains(circuit_id@),
            final(self).circuits() == without(old(self).circuits(), circuit_id@),
            final(self).limits() == old(self).limits(),
            final(self).peer_limits() == old(self).peer_limits(),
            final(self).reservations() == old(self).reservations(),
    {
        self.active_circuits.remove(&circuit_id)
    }

    pub fn get_active_circuits(&self) -> (r: Vec<String>)
        ensures
            texts(r@) == self.circuits(),
    {
        self.active_circuits.to_vec()
    }

    pub fn get_active_circuit_count(&self) -> (r: usize)
        ensures
            r == self.circuits().len(),
    {
        self.active_circuits.len()
    }

    /// Notes that `peer_id` asked for a reservation at time `now` (seconds
    /// since the Unix epoch).
    pub fn record_reservation_request(&mut self, peer_id: String, now: u64)
        requires
            old(self).wf(),
        ensures
            final(self).wf(),
            final(self).reservations() == old(self).reservations().insert(peer_id@, now),
            final(self).limits() == old(self).limits(),
            final(self).peer_limits() == old(self).peer_limits(),
            final(self).circuits() == old(self).circuits(),
    {
        self.reservation_requests.insert(peer_id, now);
    }

    /// Every reservation request, as (peer identifier, time) pairs.
    pub fn get_reservation_requests(&self) -> (r: Vec<(String, u64)>)
        requires
            self.wf(),
        ensures
            forall|i: int|
                0 <= i < r@.len() ==> self.reservations().contains_key(#[trigger] r@[i].0@)
                    && self.reservations()[r@[i].0@] == r@[i].1,
            forall|i: int, j: int| 0 <= i < j < r@.len() ==> r@[i].0@ != r@[j].0@,
            forall|k: Seq<char>|
                #[trigger] self.reservations().contains_key(k) ==> exists|i: int|
                    0 <= i < r@.len() && r@[i].0@ == k,
    {
        let keys = self.reservation_requests.keys();
        let mut out: Vec<(String, u64)> = Vec::new();
        let mut i: usize = 0;
        while i < keys.len()
            invariant
                self.wf(),
                i <= keys@.len(),
                out@.len() == i,
                forall|a: int| 0 <= a < keys@.len() ==> self.reservations().contains_key(#[trigger] keys@[a]@),
                forall|a: int, b: int| 0 <= a < b < keys@.len() ==> keys@[a]@ != keys@[b]@,
                forall|a: int|
                    0 <= a < i ==> (#[trigger] out@[a]).0@ == keys@[a]@ && self.reservations()[keys@[a]@]
                        == out@[a].1,
            decreases keys@.len() - i,
        {
            let key = &keys[i];
            let t = *self.reservation_requests.get(key).unwrap();
            out.push((key.clone(), t));
            i = i + 1;
        }
        proof {
            assert forall|k: Seq<char>| #[trigger] self.reservations().contains_key(k) implies exists|a: int|
                0 <= a < out@.len() && out@[a].0@ == k by {
                let b = choose|b: int| 0 <= b < keys@.len() && keys@[b]@ == k;
                assert(out@[b].0@ == k);
            }
        }
        out
    }

    /// Counts of active circuits, circuit limits and reservation requests,
    /// and 1 or 0 for whether the relay is on.
    pub fn get_relay_stats(&self) -> (r: Vec<(String, u64)>)
        requires
            self.wf(),
        ensures
            r@.len() == 4,
            r@[0].0@ == "active_circuits"@ && r@[0].1 == self.circuits().len(),
            r@[1].0@ == "circuit_limits"@ && r@[1].1 == self.peer_limits().dom().len(),
            r@[2].0@ == "reservation_requests"@ && r@[2].1 == self.reservations().dom().len(),
            r@[3].0@ == "relay_enabled"@ && r@[3].1 == (if self.limits() is Some {
                1u64
            } else {
                0u64
            }),
    {
        let mut stats: Vec<(String, u64)> = Vec::new();
        stats.push(("active_circuits".to_owned(), self.active_circuits.len() as u64));
        stats.push(("circuit_limits".to_owned(), self.circuit_limits.len() as u64));
        stats.push(("reservation_requests".to_owned(), self.reservation_requests.len() as u64));
        stats.push(("relay_enabled".to_owned(), if self.relay_limits.is_some() { 1 } else { 0 }));
        stats
    }

    /// Drops the reservation requests older than `max_age_secs` at time `now`
    /// and says how many were dropped.
    pub fn clear_old_reservations(&mut self, max_age_secs: u64, now: u64) -> (r: usize)
        requires
            old(self).wf(),
        ensures
            final(self).wf(),
            final(self).reservations() == old(self).reservations().restrict(
                old(self).reservations().dom().filter(
                    |k: Seq<char>| reservation_fresh(old(self).reservations()[k], now, max_age_secs),
                ),
            ),
            r == old(self).reservations().dom().len() - final(self).reservations().dom().len(),
            final(self).limits() == old(self).limits(),
            final(self).peer_limits() == old(self).peer_limits(),
            final(self).circuits() == old(self).circuits(),
    {
        let ghost m0 = self.reservation_requests@;
        let ghost keep = m0.dom().filter(|k: Seq<char>| reservation_fresh(m0[k], now, max_age_secs));
        let keys = self.reservation_requests.keys();
        let initial = self.reservation_requests.len();
        let mut i: usize = 0;
        while i < keys.len()
            invariant
                self.reservation_requests.wf(),
                self.active_circuits.wf(),
                self.circuit_limits.wf(),
                self.relay_limits == old(self).relay_limits,
                self.circuit_limits@ == old(self).circuit_limits@,
                self.active_circuits@ == old(self).active_circuits@,
                m0 == old(self).reservation_requests@,
                keep == m0.dom().filter(|k: Seq<char>| reservation_fresh(m0[k], now, max_age_secs)),
                initial == m0.dom().len(),
                i <= keys@.len(),
                forall|a: int| 0 <= a < keys@.len() ==> m0.contains_key(#[trigger] keys@[a]@),
                forall|a: int, b: int| 0 <= a < b < keys@.len() ==> keys@[a]@ != keys@[b]@,
                forall|k: Seq<char>| #[trigger] m0.contains_key(k) ==> exists|a: int| 0 <= a < keys@.len() && keys@[a]@ == k,
                forall|k: Seq<char>|
                    #[trigger] self.reservation_requests@.contains_key(k) ==> m0.contains_key(k)
                        && self.reservation_requests@[k] == m0[k],
                forall|a: int|
                    0 <= a < i ==> (self.reservation_requests@.contains_key(#[trigger] keys@[a]@)
                        <==> keep.contains(keys@[a]@)),
                forall|a: int|
                    i <= a < keys@.len() ==> self.reservation_requests@.contains_key(#[trigger] keys@[a]@),
            decreases keys@.len() - i,
        {
            let key = &keys[i];
            let t = *self.reservation_requests.get(key).unwrap();
            if now.wrapping_sub(t) > max_age_secs {
                self.reservation_requests.remove(key);
            }
            proof {
                assert(keep.contains(keys@[i as int]@) == reservation_fresh(m0[keys@[i as int]@], now, max_age_secs));
            }
            i = i + 1;
        }
        proof {
            assert(self.reservation_requests@ =~= m0.restrict(keep)) by {
                assert forall|k: Seq<char>| #[trigger] self.reservation_requests@.contains_key(k) <==> m0.restrict(keep).contains_key(k) by {
                    if m0.contains_key(k) {
                        let a = choose|a: int| 0 <= a < keys@.len() && keys@[a]@ == k;
                    }
                }
            }
        }
        let remaining = self.reservation_requests.len();
        proof {
            assert(self.reservation_requests@.dom().subset_of(m0.dom()));
            old(self).reservation_requests.lemma_finite();
            vstd::set_lib::lemma_len_subset(self.reservation_requests@.dom(), m0.dom());
        }
        initial - remaining
    }
}

/// The byte counters of `es` added up, each modulo 2^64.
pub open spec fn counter_sums(es: Seq<(String, StreamCounters)>) -> (u64, u64)
    decreases es.len(),
{
    if es.len() == 0 {
        (0, 0)
    } else {
        let (s, r) = counter_sums(es.drop_last());
        (
            ((s + es.last().1.0) % 0x1_0000_0000_0000_0000) as u64,
            ((r + es.last().1.1) % 0x1_0000_0000_0000_0000) as u64,
        )
    }
}

/// A listing of a map's entries with distinct keys that covers the map has
/// as many entries as the map has keys.
pub proof fn lemma_listing_len<V>(es: Seq<(String, V)>, m: Map<Seq<char>, V>)
    requires
        m.dom().finite(),
        forall|i: int| 0 <= i < es.len() ==> m.contains_key(#[trigger] es[i].0@),
        forall|i: int, j: int| 0 <= i < j < es.len() ==> es[i].0@ != es[j].0@,
        forall|k: Seq<char>| #[trigger] m.contains_key(k) ==> exists|i: int| 0 <= i < es.len() && es[i].0@ == k,
    ensures
        es.len() == m.dom().len(),
{
    let ks = es.map_values(|e: (String, V)| e.0@);
    ks.unique_seq_to_set();
    assert(ks.to_set() =~= m.dom()) by {
        assert forall|k: Seq<char>| ks.to_set().contains(k) implies m.dom().contains(k) by {
            let i = choose|i: int| 0 <= i < ks.len() && ks[i] == k;
            assert(m.contains_key(es[i].0@));
        }
        assert forall|k: Seq<char>| m.dom().contains(k) implies ks.to_set().contains(k) by {
            let i = choose|i: int| 0 <= i < es.len() && es[i].0@ == k;
            assert(ks[i] == k);
        }
    }
}

/// Byte counters of one stream: sent, then received.
pub type StreamCounters = (u64, u64);

/// Protocol handlers by protocol, the open streams of each protocol, and the
/// byte counters of each stream.
pub struct StreamManager {
    active_streams: Registry<TextSet>,
    stream_stats: Registry<StreamCounters>,
    protocol_handlers: Registry<String>,
}

impl StreamManager {
    pub closed spec fn wf(&self) -> bool {
        &&& self.active_streams.wf()
        &&& forall|k: Seq<char>|
            #[trigger] self.active_streams@.contains_key(k) ==> self.active_streams@[k].wf()
        &&& self.stream_stats.wf()
        &&& self.protocol_handlers.wf()
    }

    /// The open streams of each protocol, by protocol.
    pub closed spec fn streams(&self) -> Map<Seq<char>, Seq<Seq<char>>> {
        Map::new(
            |k: Seq<char>| self.active_streams@.contains_key(k),
            |k: Seq<char>| self.active_streams@[k]@,
        )
    }

    /// The counters of each stream, by stream identifier.
    pub closed spec fn counters(&self) -> Map<Seq<char>, StreamCounters> {
        self.stream_stats@
    }

    /// The handler of each protocol, by protocol.
    pub closed spec fn handlers(&self) -> Map<Seq<char>, String> {
        self.protocol_handlers@
    }

    pub fn new() -> (r: StreamManager)
        ensures
            r.wf(),
            r.streams() == Map::<Seq<char>, Seq<Seq<char>>>::empty(),
            r.counters() == Map::<Seq<char>, StreamCounters>::empty(),
            r.handlers() == Map::<Seq<char>, String>::empty(),
    {
        let r = StreamManager {
            active_streams: Registry::new(),
            stream_stats: Registry::new(),
            protocol_handlers: Registry::new(),
        };
        proof {
            assert(r.streams() =~= Map::<Seq<char>, Seq<Seq<char>>>::empty());
        }
        r
    }

    /// Registers `handler_name` for `protocol`; the protocol keeps its open
    /// streams, or starts with none.
    pub fn register_protocol_handler(&mut self, protocol: String, handler_name: String)
        requires
            old(self).wf(),
        ensures
            final(self).wf(),
            final(self).handlers() == old(self).handlers().insert(protocol@, handler_name),
            final(self).streams() == if old(self).streams().contains_key(protocol@) {
                old(self).streams()
            } else {
                old(self).streams().insert(protocol@, Seq::<Seq<char>>::empty())
            },
            final(self).counters() == old(self).counters(),
    {
        if !self.active_streams.contains_key(&protocol) {
            self.active_streams.insert(protocol.clone(), TextSet::new());
        }
        self.protocol_handlers.insert(protocol, handler_name);
        proof {
            assert(self.streams() =~= if old(self).streams().contains_key(protocol@) {
                old(self).streams()
            } else {
                old(self).streams().insert(protocol@, Seq::<Seq<char>>::empty())
            });
        }
    }

    /// Unregisters the handler of `protocol` and drops its stream list; says
    /// whether it had a handler.
    pub fn unregister_protocol_handler(&mut self, protocol: String) -> (r: bool)
        requires
            old(self).wf(),
        ensures
            final(self).wf(),
            r == old(self).handlers().contains_key(protocol@),
            final(self).handlers() == old(self).handlers().remove(protocol@),
            final(self).streams() == if r {
                old(self).streams().remove(protocol@)
            } else {
                old(self).streams()
            },
            final(self).counters() == old(self).counters(),
    {
        let removed = self.protocol_handlers.remove(&protocol).is_some();
        if removed {
            self.active_streams.remove(&protocol);
        }
        proof {
            assert(self.streams() =~= if removed {
                old(self).streams().remove(protocol@)
            } else {
                old(self).streams()
            });
        }
        removed
    }

    /// Opens `stream_id` on `protocol` with zero counters, unless it is open
    /// there already; an unregistered protocol is `NotFound`.
    pub fn add_stream(&mut self, protocol: String, stream_id: String) -> (r: Result<(), NodeError>)
        requires
            old(self).wf(),
        ensures
            final(self).wf(),
            r is Ok == old(self).streams().contains_key(protocol@),
            r is Err ==> r == Err::<(), NodeError>(NodeError::NotFound),
            r is Err || old(self).streams()[protocol@].contains(stream_id@) ==> final(self).streams()
                == old(self).streams() && final(self).counters() == old(self).counters(),
            r is Ok && !old(self).streams()[protocol@].contains(stream_id@) ==> final(self).streams()
                == old(self).streams().insert(
                protocol@,
                old(self).streams()[protocol@].push(stream_id@),
            ) && final(self).counters() == old(self).counters().insert(stream_id@, (0u64, 0u64)),
            final(self).handlers() == old(self).handlers(),
    {
        match self.active_streams.remove(&protocol) {
            Some(mut streams) => {
                let fresh = !streams.contains(&stream_id);
                if fresh {
                    streams.add(stream_id.clone());
                    self.stream_stats.insert(stream_id, (0, 0));
                }
                self.active_streams.insert(protocol, streams);
                proof {
                    if fresh {
                        assert(self.streams() =~= old(self).streams().insert(
                            protocol@,
                            old(self).streams()[protocol@].push(stream_id@),
                        ));
                    } else {
                        assert(self.streams() =~= old(self).streams());
                    }
                }
                Ok(())
            },
            None => {
                proof {
                    assert(self.active_streams@ =~= old(self).active_streams@);
                }
                Err(NodeError::NotFound)
            },
        }
    }

    /// Closes `stream_id` on `protocol` and drops its counters; says whether
    /// it was open there.
    pub fn remove_stream(&mut self, protocol: String, stream_id: String) -> (r: bool)
        requires
            old(self).wf(),
        ensures
            final(self).wf(),
            r == (old(self).streams().contains_key(protocol@) && old(
                self,
            ).streams()[protocol@].contains(stream_id@)),
            r ==> final(self).streams() == old(self).streams().insert(
                protocol@,
                without(old(self).streams()[protocol@], stream_id@),
            ) && final(self).counters() == old(self).counters().remove(stream_id@),
            !r ==> final(self).streams() == old(self).streams() && final(self).counters() == old(
                self,
            ).counters(),
            final(self).handlers() == old(self).handlers(),
    {
        match self.active_streams.remove(&protocol) {
            Some(mut streams) => {
                let ghost s0 = streams@;
                let removed = streams.remove(&stream_id);
                if removed {
                    self.stream_stats.remove(&stream_id);
                }
                self.active_streams.insert(protocol, streams);
                proof {
                    if removed {
                        assert(self.streams() =~= old(self).streams().insert(
                            protocol@,
                            without(old(self).streams()[protocol@], stream_id@),
                        ));
                    } else {
                        crate::text_set::lemma_without_absent(s0, stream_id@);
                        assert(self.streams() =~= old(self).streams());
                    }
                }
                removed
            },
            None => {
                proof {
                    assert(self.active_streams@ =~= old(self).active_streams@);
                }
                false
            },
        }
    }

    /// The open streams of `protocol`, none for an unregistered one.
    pub fn get_streams_for_protocol(&self, protocol: String) -> (r: Vec<String>)
        requires
            self.wf(),
        ensures
            self.streams().contains_key(protocol@) ==> texts(r@) == self.streams()[protocol@],
            !self.streams().contains_key(protocol@) ==> r@.len() == 0,
    {
        match self.active_streams.get(&protocol) {
            Some(streams) => streams.to_vec(),
            None => Vec::new(),
        }
    }

    /// Adds to the counters of `stream_id`, if it is open; the counters wrap
    /// around at 2^64.
    pub fn update_stream_stats(&mut self, stream_id: String, bytes_sent: u64, bytes_received: u64)
        requires
            old(self).wf(),
        ensures
            final(self).wf(),
            old(self).counters().contains_key(stream_id@) ==> final(self).counters() == old(
                self,
            ).counters().insert(
                stream_id@,
                (
                    ((old(self).counters()[stream_id@].0 + bytes_sent) % 0x1_0000_0000_0000_0000) as u64,
                    ((old(self).counters()[stream_id@].1 + bytes_received) % 0x1_0000_0000_0000_0000) as u64,
                ),
            ),
            !old(self).counters().contains_key(stream_id@) ==> final(self).counters() == old(
                self,
            ).counters(),
            final(self).streams() == old(self).streams(),
            final(self).handlers() == old(self).handlers(),
    {
        let current = match self.stream_stats.get(&stream_id) {
            Some(c) => Some(*c),
            None => None,
        };
        match current {
            Some((sent, received)) => {
                self.stream_stats.insert(
                    stream_id,
                    (sent.wrapping_add(bytes_sent), received.wrapping_add(bytes_received)),
                );
            },
            None => {},
        }
    }

    pub fn get_stream_stats(&self, stream_id: String) -> (r: Option<StreamCounters>)
        requires
            self.wf(),
        ensures
            r is Some == self.counters().contains_key(stream_id@),
            r is Some ==> r->0 == self.counters()[stream_id@],
    {
        match self.stream_stats.get(&stream_id) {
            Some(c) => Some(*c),
            None => None,
        }
    }

    /// Every protocol with its handler, as (protocol, handler) pairs.
    pub fn get_protocol_handlers(&self) -> (r: Vec<(String, String)>)
        requires
            self.wf(),
        ensures
            forall|i: int|
                0 <= i < r@.len() ==> self.handlers().contains_key(#[trigger] r@[i].0@)
                    && self.handlers()[r@[i].0@]@ == r@[i].1@,
            forall|i: int, j: int| 0 <= i < j < r@.len() ==> r@[i].0@ != r@[j].0@,
            forall|k: Seq<char>|
                #[trigger] self.handlers().contains_key(k) ==> exists|i: int| 0 <= i < r@.len() && r@[i].0@ == k,
    {
        let keys = self.protocol_handlers.keys();
        let mut out: Vec<(String, String)> = Vec::new();
        let mut i: usize = 0;
        while i < keys.len()
            invariant
                self.wf(),
                i <= keys@.len(),
                out@.len() == i,
                forall|a: int| 0 <= a < keys@.len() ==> self.handlers().contains_key(#[trigger] keys@[a]@),
                forall|a: int, b: int| 0 <= a < b < keys@.len() ==> keys@[a]@ != keys@[b]@,
                forall|a: int|
                    0 <= a < i ==> (#[trigger] out@[a]).0@ == keys@[a]@ && self.handlers()[keys@[a]@]@
                        == out@[a].1@,
            decreases keys@.len() - i,
        {
            let key = &keys[i];
            let h = self.protocol_handlers.get(key).unwrap();
            out.push((key.clone(), h.clone()));
            i = i + 1;
        }
        proof {
            assert forall|k: Seq<char>| #[trigger] self.handlers().contains_key(k) implies exists|a: int|
                0 <= a < out@.len() && out@[a].0@ == k by {
                let b = choose|b: int| 0 <= b < keys@.len() && keys@[b]@ == k;
                assert(out@[b].0@ == k);
            }
        }
        out
    }

    /// Every protocol with its open streams.
    pub fn get_all_streams(&self) -> (r: Vec<(String, Vec<String>)>)
        requires
            self.wf(),
        ensures
            forall|i: int|
                0 <= i < r@.len() ==> self.streams().contains_key(#[trigger] r@[i].0@)
                    && self.streams()[r@[i].0@] == texts(r@[i].1@),
            forall|i: int, j: int| 0 <= i < j < r@.len() ==> r@[i].0@ != r@[j].0@,
            forall|k: Seq<char>|
                #[trigger] self.streams().contains_key(k) ==> exists|i: int| 0 <= i < r@.len() && r@[i].0@ == k,
    {
        let keys = self.active_streams.keys();
        let mut out: Vec<(String, Vec<String>)> = Vec::new();
        let mut i: usize = 0;
        while i < keys.len()
            invariant
                self.wf(),
                i <= keys@.len(),
                out@.len() == i,
                forall|a: int| 0 <= a < keys@.len() ==> self.streams().contains_key(#[trigger] keys@[a]@),
                forall|a: int, b: int| 0 <= a < b < keys@.len() ==> keys@[a]@ != keys@[b]@,
                forall|a: int|
                    0 <= a < i ==> (#[trigger] out@[a]).0@ == keys@[a]@ && self.streams()[keys@[a]@]
                        == texts(out@[a].1@),
            decreases keys@.len() - i,
        {
            let key = &keys[i];
            let streams = self.active_streams.get(key).unwrap();
            out.push((key.clone(), streams.to_vec()));
            i = i + 1;
        }
        proof {
            assert forall|k: Seq<char>| #[trigger] self.streams().contains_key(k) implies exists|a: int|
                0 <= a < out@.len() && out@[a].0@ == k by {
                let b = choose|b: int| 0 <= b < keys@.len() && keys@[b]@ == k;
                assert(out@[b].0@ == k);
            }
        }
        out
    }

    /// Every stream with its counters, as (stream, counters) pairs.
    pub fn get_all_stream_stats(&self) -> (r: Vec<(String, StreamCounters)>)
        requires
            self.wf(),
        ensures
            forall|i: int|
                0 <= i < r@.len() ==> self.counters().contains_key(#[trigger] r@[i].0@)
                    && self.counters()[r@[i].0@] == r@[i].1,
            forall|i: int, j: int| 0 <= i < j < r@.len() ==> r@[i].0@ != r@[j].0@,
            forall|k: Seq<char>|
                #[trigger] self.counters().contains_key(k) ==> exists|i: int| 0 <= i < r@.len() && r@[i].0@ == k,
    {
        self.stream_stats.entries()
    }

    /// Total bytes sent and received over all streams (each sum modulo
    /// 2^64), and the number of streams, taken over the entries of
    /// `get_all_stream_stats`.
    pub fn get_total_stats(&self) -> (r: (u64, u64, usize))
        requires
            self.wf(),
        ensures
            exists|es: Seq<(String, StreamCounters)>|
                #![trigger counter_sums(es)]
                es.len() == self.counters().dom().len() && (forall|i: int|
                    0 <= i < es.len() ==> self.counters().contains_key(#[trigger] es[i].0@)
                        && self.counters()[es[i].0@] == es[i].1) && r.0 == counter_sums(es).0 && r.1
                    == counter_sums(es).1,
            r.2 == self.counters().dom().len(),
    {
        let entries = self.stream_stats.entries();
        let mut sent: u64 = 0;
        let mut received: u64 = 0;
        let mut i: usize = 0;
        while i < entries.len()
            invariant
                i <= entries@.len(),
                (sent, received) == counter_sums(entries@.take(i as int)),
            decreases entries@.len() - i,
        {
            let (_, (s, rcv)) = &entries[i];
            proof {
                assert(entries@.take(i + 1).drop_last() =~= entries@.take(i as int));
            }
            sent = sent.wrapping_add(*s);
            received = received.wrapping_add(*rcv);
            i = i + 1;
        }
        let count = self.stream_stats.len();
        proof {
            assert(entries@.take(entries@.len() as int) =~= entries@);
            self.stream_stats.lemma_finite();
            lemma_listing_len(entries@, self.counters());
            assert(counter_sums(entries@) == (sent, received));
        }
        (sent, received, count)
    }

    pub fn get_protocol_count(&self) -> (r: usize)
        requires
            self.wf(),
        ensures
            r == self.handlers().dom().len(),
    {
        self.protocol_handlers.len()
    }

    /// Closes every stream on every protocol and drops all counters.
    pub fn clear_all_streams(&mut self)
        requires
            old(self).wf(),
        ensures
            final(self).wf(),
            final(self).streams() == Map::<Seq<char>, Seq<Seq<char>>>::empty(),
            final(self).counters() == Map::<Seq<char>, StreamCounters>::empty(),
            final(self).handlers() == old(self).handlers(),
    {
        self.active_streams.clear();
        self.stream_stats.clear();
        proof {
            assert(self.streams() =~= Map::<Seq<char>, Seq<Seq<char>>>::empty());
        }
    }
}

} // verus!
