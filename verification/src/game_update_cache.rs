//! The keyed registry that coalesces concurrent ingest requests: one
//! producer per (user, platform), late subscribers attach to it.

use vstd::prelude::*;

use crate::graphql_dto::GraphQLPlatformName;

verus! {

/// The key of one in-progress ingest.
#[derive(Debug, Hash)]
pub struct GameUpdateIdentifier {
    username: String,
    platform_name: GraphQLPlatformName,
}

impl View for GameUpdateIdentifier {
    type V = (Seq<char>, GraphQLPlatformName);

    closed spec fn view(&self) -> (Seq<char>, GraphQLPlatformName) {
        (self.username@, self.platform_name)
    }
}

impl GameUpdateIdentifier {
    pub fn new(username: String, platform_name: GraphQLPlatformName) -> (r: Self)
        ensures
            r@ == (username@, platform_name),
    {
        Self { username, platform_name }
    }
}

impl PartialEq for GameUpdateIdentifier {
    fn eq(&self, other: &Self) -> (r: bool) {
        crate::store::str_eq(self.username.as_str(), other.username.as_str())
            && self.platform_name == other.platform_name
    }
}

impl vstd::std_specs::cmp::PartialEqSpecImpl for GameUpdateIdentifier {
    open spec fn obeys_eq_spec() -> bool {
        true
    }

    open spec fn eq_spec(&self, other: &Self) -> bool {
        self@ == other@
    }
}

/// How a subscription request was satisfied: attached to the producer of an
/// identical in-progress ingest, or started as the producer of a new one.
/// Carries the id of the broadcast channel to receive on.
#[derive(Clone, Copy, Debug, PartialEq, Eq, Structural)]
pub enum SubscribeOutcome {
    Attached(u64),
    Started(u64),
}

/// The process-wide cache mapping ingest keys to their broadcast channels.
/// At most one entry — hence at most one producer — exists per key.
pub struct GameUpdateCache {
    entries: Vec<(GameUpdateIdentifier, u64)>,
    next_channel: u64,
}

/// Mathematical value of the cache: the key/channel association list and
/// the next fresh channel id.
#[verifier::ext_equal]
pub ghost struct GameUpdateCacheV {
    pub entries: Seq<((Seq<char>, GraphQLPlatformName), u64)>,
    pub next_channel: u64,
}

impl View for GameUpdateCache {
    type V = GameUpdateCacheV;

    closed spec fn view(&self) -> GameUpdateCacheV {
        GameUpdateCacheV {
            entries: self.entries@.map_values(|e: (GameUpdateIdentifier, u64)| (e.0@, e.1)),
            next_channel: self.next_channel,
        }
    }
}

/// Distinct keys: at most one producer per (user, platform).
pub open spec fn cache_inv(c: GameUpdateCacheV) -> bool {
    forall|i: int, j: int|
        0 <= i < j < c.entries.len() ==> (#[trigger] c.entries[i]).0 != (#[trigger] c.entries[j]).0
}

impl GameUpdateCache {
    /// An empty registry; channel ids start at 1.
    pub fn new() -> (r: Self)
        ensures
            r@.entries.len() == 0,
            r@.next_channel == 1,
            cache_inv(r@),
    {
        let r = GameUpdateCache { entries: Vec::new(), next_channel: 1 };
        proof {
            assert(r@.entries =~= Seq::<((Seq<char>, GraphQLPlatformName), u64)>::empty());
        }
        r
    }

    /// Serves one subscription request: a key already in flight yields the
    /// existing channel and leaves the registry unchanged — no second
    /// producer is ever started — while a new key registers a fresh channel.
    pub fn subscribe(&mut self, key: GameUpdateIdentifier) -> (r: SubscribeOutcome)
        requires
            cache_inv(old(self)@),
            old(self)@.next_channel < u64::MAX,
        ensures
            cache_inv(final(self)@),
            match r {
                SubscribeOutcome::Attached(ch) => {
                    &&& final(self)@ == old(self)@
                    &&& exists|i: int|
                        0 <= i < old(self)@.entries.len() && #[trigger] old(self)@.entries[i] == (
                        key@,
                        ch,
                    )
                },
                SubscribeOutcome::Started(ch) => {
                    &&& !(exists|i: int|
                        0 <= i < old(self)@.entries.len() && (#[trigger] old(
                            self,
                        )@.entries[i]).0 == key@)
                    &&& ch == old(self)@.next_channel
                    &&& final(self)@.entries == old(self)@.entries.push((key@, ch))
                    &&& final(self)@.next_channel == old(self)@.next_channel + 1
                },
            },
    {
        let ghost entries0 = self@.entries;
        let mut i: usize = 0;
        #[verifier::loop_isolation(false)]
        while i < self.entries.len()
            invariant
                i <= entries0.len(),
                self@.entries == entries0,
                self@.next_channel == old(self)@.next_channel,
                self@ == old(self)@,
                forall|t: int| 0 <= t < i ==> (#[trigger] entries0[t]).0 != key@,
            decreases entries0.len() - i,
        {
            if self.entries[i].0 == key {
                let ch = self.entries[i].1;
                proof {
                    assert(entries0[i as int] == (key@, ch));
                }
                return SubscribeOutcome::Attached(ch);
            }
            i = i + 1;
        }
        let ch = self.next_channel;
        let ghost before = self@.entries;
        self.entries.push((key, ch));
        self.next_channel = self.next_channel + 1;
        proof {
            assert(self@.entries =~= before.push((key@, ch)));
        }
        SubscribeOutcome::Started(ch)
    }

    /// Number of ingests in flight.
    pub fn len(&self) -> (r: usize)
        ensures
            r == self@.entries.len(),
    {
        self.entries.len()
    }
}

} // verus!
