//! The view of the routing information base, held in memory.
//!
//! Routers and peers are keyed by their addresses in 128-bit form. The
//! prefixes of a peer are keyed by address, and under each address by a slot
//! number that packs the prefix length with the policy stage and direction.
//!
//! Every key is an integer: of a hash map keyed by an integer the verifier
//! knows what it holds after each insertion and removal, which it does not of
//! one keyed by a struct with an equality and a hash of its own. What the
//! maps hold together is the view [`Rib`], a map from peers to timed prefixes
//! in which a prefix is found by its address, its length, its policy stage
//! and its direction, and in which the time is no part of the key.

use crate::addr::IpAddress;
use crate::clock::now_millis;
use crate::state::{
    key_of, lists_prefixes, peer_key, prefixes_after, rib_after, rib_with_peer, PeerKey,
    PrefixKey, PrefixSet, Rib, TimedPrefix,
};
use crate::snapshot::{rib_of_entries, set_of_prefixes, PeerEntry, PrefixEntry};
use crate::state_store::store::StateStore;
use crate::update::Update;
use std::collections::HashMap;
use vstd::prelude::*;
use vstd::std_specs::iter::IteratorSpec;

verus! {

/// The slot of a prefix under its address: four slots per length, one for
/// each combination of policy stage and direction.
pub open spec fn slot_of(len: u8, is_post_policy: bool, is_adj_rib_out: bool) -> u16 {
    (len as int * 4 + (if is_post_policy {
        2int
    } else {
        0int
    }) + (if is_adj_rib_out {
        1int
    } else {
        0int
    })) as u16
}

fn slot_number(len: u8, is_post_policy: bool, is_adj_rib_out: bool) -> (slot: u16)
    ensures
        slot == slot_of(len, is_post_policy, is_adj_rib_out),
        slot < 1024,
{
    let high: u16 = (len as u16) * 4;
    let stage: u16 = if is_post_policy {
        2
    } else {
        0
    };
    let direction: u16 = if is_adj_rib_out {
        1
    } else {
        0
    };
    high + stage + direction
}

/// One peer of a router and the prefixes it is believed to announce.
pub struct Peer {
    peer_addr: IpAddress,
    updates: HashMap<u128, HashMap<u16, i64>>,
}

impl Peer {
    #[verifier::type_invariant]
    spec fn well_formed(self) -> bool {
        forall|addr: u128, slot: u16|
            self.updates@.contains_key(addr) && #[trigger] self.updates@[addr]@.contains_key(slot)
                ==> slot < 1024
    }

    /// The address of the peer, in 128-bit form.
    pub closed spec fn addr(self) -> IpAddress {
        self.peer_addr
    }

    /// The prefixes that the peer is believed to announce.
    pub closed spec fn prefixes(self) -> PrefixSet {
        Map::new(
            |k: PrefixKey|
                self.updates@.contains_key(k.addr) && self.updates@[k.addr]@.contains_key(
                    slot_of(k.len, k.is_post_policy, k.is_adj_rib_out),
                ),
            |k: PrefixKey|
                self.updates@[k.addr]@[slot_of(k.len, k.is_post_policy, k.is_adj_rib_out)],
        )
    }

    /// The address of the peer, in 128-bit form.
    pub fn peer_addr(&self) -> (r: IpAddress)
        ensures
            r == self.addr(),
    {
        self.peer_addr
    }

    /// A peer that announces nothing.
    pub fn new(peer_addr: IpAddress) -> (r: Peer)
        ensures
            r.addr() == peer_addr.mapped(),
            r.prefixes() == Map::<PrefixKey, i64>::empty(),
    {
        let r = Peer { peer_addr: crate::addr::map_to_ipv6(peer_addr), updates: HashMap::new() };
        assert(r.prefixes() =~= Map::<PrefixKey, i64>::empty());
        r
    }

    /// Records an observation of a prefix at the time `now` and says whether
    /// it changed what the peer is believed to announce.
    pub fn observe(
        &mut self,
        prefix_addr: IpAddress,
        prefix_len: u8,
        is_post_policy: bool,
        is_adj_rib_out: bool,
        announced: bool,
        now: i64,
    ) -> (emit: bool)
        ensures
            emit == (announced != old(self).prefixes().contains_key(
                PrefixKey {
                    addr: prefix_addr.mapped_bits(),
                    len: prefix_len,
                    is_post_policy,
                    is_adj_rib_out,
                },
            )),
            final(self).prefixes() == prefixes_after(
                old(self).prefixes(),
                PrefixKey {
                    addr: prefix_addr.mapped_bits(),
                    len: prefix_len,
                    is_post_policy,
                    is_adj_rib_out,
                },
                announced,
                now,
            ),
            final(self).addr() == old(self).addr(),
    {
        proof {
            use_type_invariant(&*self);
        }
        let addr: u128 = prefix_addr.to_bits();
        let slot: u16 = slot_number(prefix_len, is_post_policy, is_adj_rib_out);
        let ghost key = PrefixKey { addr, len: prefix_len, is_post_policy, is_adj_rib_out };
        let ghost before = self.prefixes();
        let ghost old_updates = self.updates@;
        let mut updates: HashMap<u128, HashMap<u16, i64>> = HashMap::new();
        core::mem::swap(&mut self.updates, &mut updates);
        let mut slots: HashMap<u16, i64> = match updates.remove(&addr) {
            Some(found) => found,
            None => HashMap::new(),
        };
        let present = slots.contains_key(&slot);
        if announced {
            slots.insert(slot, now);
        } else {
            slots.remove(&slot);
        }
        if !slots.is_empty() {
            updates.insert(addr, slots);
        }
        core::mem::swap(&mut self.updates, &mut updates);
        proof {
            assert forall|k: PrefixKey| #![auto]
                slot_of(k.len, k.is_post_policy, k.is_adj_rib_out) == slot implies k.len
                == prefix_len && k.is_post_policy == is_post_policy && k.is_adj_rib_out
                == is_adj_rib_out by {}
            assert(self.prefixes() =~= prefixes_after(before, key, announced, now));
        }
        announced != present
    }
}

/// The slot of a listed prefix.
pub open spec fn slot_of_listed(t: TimedPrefix) -> u16 {
    slot_of(t.prefix_len, t.is_post_policy, t.is_adj_rib_out)
}

/// Whether `list` holds every slot of `slots` once, as a prefix at the
/// address `addr` with the slot's time, and nothing else.
pub open spec fn lists_slots(list: Seq<TimedPrefix>, addr: u128, slots: Map<u16, i64>) -> bool {
    &&& forall|i: int|
        0 <= i < list.len() ==> {
            &&& (#[trigger] list[i]).prefix_addr == IpAddress::V6(addr)
            &&& slots.contains_key(slot_of_listed(list[i]))
            &&& slots[slot_of_listed(list[i])] == list[i].timestamp
        }
    &&& forall|s: u16| #[trigger]
        slots.contains_key(s) ==> exists|i: int|
            0 <= i < list.len() && slot_of_listed(#[trigger] list[i]) == s
    &&& forall|i: int, j: int|
        0 <= i < j < list.len() ==> slot_of_listed(#[trigger] list[i]) != slot_of_listed(
            #[trigger] list[j],
        )
}

/// Lists the prefixes at one address.
fn list_slots(addr: u128, slots: &HashMap<u16, i64>) -> (r: Vec<TimedPrefix>)
    requires
        forall|s: u16| #[trigger] slots@.contains_key(s) ==> s < 1024,
    ensures
        lists_slots(r@, addr, slots@),
{
    let mut out: Vec<TimedPrefix> = Vec::new();
    let ghost items = slots.iter().remaining();
    for (slot, time) in it: slots.iter()
        invariant
            forall|s: u16| #[trigger] slots@.contains_key(s) ==> s < 1024,
            it.seq() == items,
            it.seq().no_duplicates(),
            forall|i: int|
                0 <= i < it.seq().len() ==> slots@.contains_key(*(#[trigger] it.seq()[i]).0)
                    && slots@[*it.seq()[i].0] == *it.seq()[i].1,
            out@.len() == it.index(),
            forall|i: int|
                0 <= i < out@.len() ==> {
                    &&& (#[trigger] out@[i]).prefix_addr == IpAddress::V6(addr)
                    &&& slot_of_listed(out@[i]) == *it.seq()[i].0
                    &&& out@[i].timestamp == *it.seq()[i].1
                },
    {
        let s: u16 = *slot;
        assert(slots@.contains_key(s));
        let t = TimedPrefix {
            prefix_addr: IpAddress::V6(addr),
            prefix_len: (s / 4) as u8,
            is_post_policy: (s / 2) % 2 == 1,
            is_adj_rib_out: s % 2 == 1,
            timestamp: *time,
        };
        assert(slot_of_listed(t) == s);
        out.push(t);
    }
    proof {
        assert forall|s: u16| #[trigger] slots@.contains_key(s) implies exists|i: int|
            0 <= i < out@.len() && slot_of_listed(#[trigger] out@[i]) == s by {
            let pair = (&s, &slots@[s]);
            assert(items.contains(pair));
            let i = choose|i: int| 0 <= i < items.len() && items[i] == pair;
            assert(slot_of_listed(out@[i]) == s);
        }
        assert forall|i: int, j: int| 0 <= i < j < out@.len() implies slot_of_listed(
            #[trigger] out@[i],
        ) != slot_of_listed(#[trigger] out@[j]) by {
            if slot_of_listed(out@[i]) == slot_of_listed(out@[j]) {
                assert(items[i] == items[j]);
            }
        }
    }
    out
}

impl Peer {
    /// Lists the prefixes that the peer is believed to announce, each once
    /// and in no particular order.
    pub fn timed_prefixes(&self) -> (r: Vec<TimedPrefix>)
        ensures
            lists_prefixes(r@, self.prefixes()),
    {
        proof {
            use_type_invariant(self);
        }
        let mut out: Vec<TimedPrefix> = Vec::new();
        let ghost items = self.updates.iter().remaining();
        let ghost set = self.prefixes();
        for (addr, slots) in it: self.updates.iter()
            invariant
                set == self.prefixes(),
                forall|a: u128, s: u16|
                    self.updates@.contains_key(a) && #[trigger] self.updates@[a]@.contains_key(s)
                        ==> s < 1024,
                it.seq() == items,
                it.seq().no_duplicates(),
                forall|i: int|
                    0 <= i < it.seq().len() ==> self.updates@.contains_key(
                        *(#[trigger] it.seq()[i]).0,
                    ) && self.updates@[*it.seq()[i].0] == *it.seq()[i].1,
                forall|n: int|
                    0 <= n < out@.len() ==> {
                        &&& (#[trigger] out@[n]).prefix_addr is V6
                        &&& set.contains_key(out@[n].key())
                        &&& set[out@[n].key()] == out@[n].timestamp
                        &&& exists|i: int|
                            0 <= i < it.index() && *(#[trigger] it.seq()[i]).0 == out@[n].key().addr
                    },
                forall|k: PrefixKey, i: int|
                    0 <= i < it.index() && *(#[trigger] it.seq()[i]).0 == k.addr
                        && #[trigger] set.contains_key(k) ==> exists|n: int|
                        0 <= n < out@.len() && (#[trigger] out@[n]).key() == k,
                forall|n: int, m: int|
                    0 <= n < m < out@.len() ==> (#[trigger] out@[n]).key() != (
                    #[trigger] out@[m]).key(),
        {
            let ghost before = out@;
            let ghost index = it.index();
            assert(self.updates@.contains_key(*addr) && self.updates@[*addr] == *slots);
            let mut listed = list_slots(*addr, slots);
            let ghost added = listed@;
            out.append(&mut listed);
            proof {
                assert(out@ == before + added);
                assert forall|n: int| 0 <= n < out@.len() implies {
                    &&& (#[trigger] out@[n]).prefix_addr is V6
                    &&& set.contains_key(out@[n].key())
                    &&& set[out@[n].key()] == out@[n].timestamp
                    &&& exists|i: int|
                        0 <= i < index + 1 && *(#[trigger] items[i]).0 == out@[n].key().addr
                } by {
                    if n < before.len() {
                        assert(out@[n] == before[n]);
                        let i = choose|i: int|
                            0 <= i < index && *(#[trigger] items[i]).0 == before[n].key().addr;
                        assert(0 <= i < index + 1 && *items[i].0 == out@[n].key().addr);
                    } else {
                        let t = added[n - before.len()];
                        assert(out@[n] == t);
                        assert(t.prefix_addr == IpAddress::V6(*addr));
                        assert(slots@.contains_key(slot_of_listed(t)));
                        assert(*items[index].0 == t.key().addr);
                    }
                }
                assert forall|k: PrefixKey, i: int|
                    0 <= i < index + 1 && *(#[trigger] items[i]).0 == k.addr
                        && #[trigger] set.contains_key(k) implies exists|n: int|
                    0 <= n < out@.len() && (#[trigger] out@[n]).key() == k by {
                    if i < index {
                        let n = choose|n: int|
                            0 <= n < before.len() && (#[trigger] before[n]).key() == k;
                        assert(out@[n] == before[n]);
                    } else {
                        let s = slot_of(k.len, k.is_post_policy, k.is_adj_rib_out);
                        assert(slots@.contains_key(s));
                        let j = choose|j: int|
                            0 <= j < added.len() && slot_of_listed(#[trigger] added[j]) == s;
                        assert(out@[before.len() + j] == added[j]);
                        assert(added[j].prefix_addr == IpAddress::V6(*addr));
                        assert(added[j].key() == k);
                    }
                }
                assert forall|n: int, m: int| 0 <= n < m < out@.len() implies (
                #[trigger] out@[n]).key() != (#[trigger] out@[m]).key() by {
                    if m < before.len() {
                        assert(out@[n] == before[n] && out@[m] == before[m]);
                    } else if n >= before.len() {
                        assert(out@[n] == added[n - before.len()]);
                        assert(out@[m] == added[m - before.len()]);
                    } else {
                        assert(out@[n] == before[n]);
                        assert(out@[m] == added[m - before.len()]);
                        assert(added[m - before.len()].prefix_addr == IpAddress::V6(*addr));
                        let i = choose|i: int|
                            0 <= i < index && *(#[trigger] items[i]).0 == before[n].key().addr;
                        if before[n].key().addr == *addr {
                            assert(items[i] == items[index]);
                        }
                    }
                }
            }
        }
        proof {
            assert forall|k: PrefixKey| #[trigger] set.contains_key(k) implies exists|n: int|
                0 <= n < out@.len() && (#[trigger] out@[n]).key() == k by {
                let pair = (&k.addr, &self.updates@[k.addr]);
                assert(items.contains(pair));
                let i = choose|i: int| 0 <= i < items.len() && items[i] == pair;
                assert(*items[i].0 == k.addr);
            }
        }
        out
    }
}

/// The peers of one router.
pub struct Router {
    peers: HashMap<u128, Peer>,
}

/// Whether `list` holds every peer of `peers` once, as the pair of the
/// router's and the peer's address in 128-bit form, and nothing else.
pub open spec fn lists_router_peers(
    list: Seq<(IpAddress, IpAddress)>,
    router: u128,
    peers: Map<u128, PrefixSet>,
) -> bool {
    &&& forall|i: int|
        0 <= i < list.len() ==> {
            &&& (#[trigger] list[i]).0 == IpAddress::V6(router)
            &&& list[i].1 is V6
            &&& peers.contains_key(list[i].1.mapped_bits())
        }
    &&& forall|p: u128| #[trigger]
        peers.contains_key(p) ==> exists|i: int|
            0 <= i < list.len() && (#[trigger] list[i]).1 == IpAddress::V6(p)
    &&& forall|i: int, j: int|
        0 <= i < j < list.len() ==> (#[trigger] list[i]).1 != (#[trigger] list[j]).1
}

/// The peers of a router after an observation of the peer `peer` at the time
/// `now`. The peer is known afterwards, whatever was observed.
pub open spec fn peers_after(
    peers: Map<u128, PrefixSet>,
    peer: u128,
    prefix: PrefixKey,
    announced: bool,
    now: i64,
) -> Map<u128, PrefixSet> {
    peers.insert(
        peer,
        prefixes_after(
            if peers.contains_key(peer) {
                peers[peer]
            } else {
                Map::empty()
            },
            prefix,
            announced,
            now,
        ),
    )
}

impl Router {
    /// The prefixes of every peer of the router, by the peer's address.
    pub closed spec fn peers(self) -> Map<u128, PrefixSet> {
        Map::new(|p: u128| self.peers@.contains_key(p), |p: u128| self.peers@[p].prefixes())
    }

    /// A router without peers.
    pub fn new() -> (r: Router)
        ensures
            r.peers() == Map::<u128, PrefixSet>::empty(),
    {
        let r = Router { peers: HashMap::new() };
        assert(r.peers() =~= Map::<u128, PrefixSet>::empty());
        r
    }

    /// Whether the router has no peer.
    pub fn is_empty(&self) -> (r: bool)
        ensures
            r == (self.peers() == Map::<u128, PrefixSet>::empty()),
    {
        let r = self.peers.is_empty();
        proof {
            if r {
                assert(self.peers() =~= Map::<u128, PrefixSet>::empty());
            } else {
                let p = choose|p: u128| self.peers@.contains_key(p);
                assert(self.peers().contains_key(p));
            }
        }
        r
    }

    /// Makes the peer known. A peer that is known keeps its prefixes.
    pub fn add_peer(&mut self, peer_addr: &IpAddress)
        ensures
            final(self).peers() == old(self).peers().insert(
                peer_addr.mapped_bits(),
                if old(self).peers().contains_key(peer_addr.mapped_bits()) {
                    old(self).peers()[peer_addr.mapped_bits()]
                } else {
                    Map::empty()
                },
            ),
    {
        let p: u128 = peer_addr.to_bits();
        let ghost before = self.peers();
        if !self.peers.contains_key(&p) {
            self.peers.insert(p, Peer::new(*peer_addr));
        }
        assert(self.peers() =~= before.insert(
            p,
            if before.contains_key(p) {
                before[p]
            } else {
                Map::empty()
            },
        ));
    }

    /// Forgets the peer and all its prefixes.
    pub fn remove_peer(&mut self, peer_addr: &IpAddress)
        ensures
            final(self).peers() == old(self).peers().remove(peer_addr.mapped_bits()),
    {
        let p: u128 = peer_addr.to_bits();
        let ghost before = self.peers();
        self.peers.remove(&p);
        assert(self.peers() =~= before.remove(p));
    }

    /// Records the observation `update` of the peer at the time `now` and
    /// says whether it is to be emitted. The peer is known afterwards.
    pub fn update_at(&mut self, peer_addr: &IpAddress, update: &Update, now: i64) -> (emit: bool)
        ensures
            emit == (update.announced != (old(self).peers().contains_key(peer_addr.mapped_bits())
                && old(self).peers()[peer_addr.mapped_bits()].contains_key(key_of(*update)))),
            final(self).peers() == peers_after(
                old(self).peers(),
                peer_addr.mapped_bits(),
                key_of(*update),
                update.announced,
                now,
            ),
    {
        let p: u128 = peer_addr.to_bits();
        let ghost before = self.peers();
        let mut peer: Peer = match self.peers.remove(&p) {
            Some(found) => found,
            None => Peer::new(*peer_addr),
        };
        let ghost set = peer.prefixes();
        let emit = peer.observe(
            update.prefix_addr,
            update.prefix_len,
            update.is_post_policy,
            update.is_adj_rib_out,
            update.announced,
            now,
        );
        self.peers.insert(p, peer);
        assert(self.peers() =~= before.insert(
            p,
            prefixes_after(set, key_of(*update), update.announced, now),
        ));
        emit
    }

    /// Records the observation `update` of the peer at the current time.
    pub fn update(&mut self, peer_addr: &IpAddress, update: &Update) -> (emit: bool)
        ensures
            emit == (update.announced != (old(self).peers().contains_key(peer_addr.mapped_bits())
                && old(self).peers()[peer_addr.mapped_bits()].contains_key(key_of(*update)))),
            exists|now: i64|
                final(self).peers() == peers_after(
                    old(self).peers(),
                    peer_addr.mapped_bits(),
                    key_of(*update),
                    update.announced,
                    now,
                ),
    {
        let now = now_millis();
        self.update_at(peer_addr, update, now)
    }

    /// Lists the prefixes of the peer; none for a peer that is not known.
    pub fn get_updates_by_peer(&self, peer_addr: &IpAddress) -> (r: Vec<TimedPrefix>)
        ensures
            lists_prefixes(
                r@,
                if self.peers().contains_key(peer_addr.mapped_bits()) {
                    self.peers()[peer_addr.mapped_bits()]
                } else {
                    Map::empty()
                },
            ),
    {
        let p: u128 = peer_addr.to_bits();
        match self.peers.get(&p) {
            Some(peer) => peer.timed_prefixes(),
            None => Vec::new(),
        }
    }

    /// Lists the peers of the router, each once and in no particular order,
    /// as pairs under the router's address `router`.
    pub fn peer_pairs(&self, router: u128) -> (r: Vec<(IpAddress, IpAddress)>)
        ensures
            lists_router_peers(r@, router, self.peers()),
    {
        let mut out: Vec<(IpAddress, IpAddress)> = Vec::new();
        let ghost items = self.peers.iter().remaining();
        for (addr, peer) in it: self.peers.iter()
            invariant
                it.seq() == items,
                it.seq().no_duplicates(),
                forall|i: int|
                    0 <= i < it.seq().len() ==> self.peers@.contains_key(
                        *(#[trigger] it.seq()[i]).0,
                    ) && self.peers@[*it.seq()[i].0] == *it.seq()[i].1,
                out@.len() == it.index(),
                forall|i: int|
                    0 <= i < out@.len() ==> (#[trigger] out@[i]) == (
                        IpAddress::V6(router),
                        IpAddress::V6(*it.seq()[i].0),
                    ),
        {
            out.push((IpAddress::V6(router), IpAddress::V6(*addr)));
        }
        proof {
            assert forall|p: u128| #[trigger] self.peers().contains_key(p) implies exists|i: int|
                0 <= i < out@.len() && (#[trigger] out@[i]).1 == IpAddress::V6(p) by {
                let pair = (&p, &self.peers@[p]);
                assert(items.contains(pair));
                let i = choose|i: int| 0 <= i < items.len() && items[i] == pair;
                assert(out@[i].1 == IpAddress::V6(p));
            }
            assert forall|i: int, j: int| 0 <= i < j < out@.len() implies (#[trigger] out@[i]).1
                != (#[trigger] out@[j]).1 by {
                if out@[i].1 == out@[j].1 {
                    assert(items[i] == items[j]);
                }
            }
        }
        out
    }
}

/// The view of the routing information base, held in memory.
pub struct MemoryStore {
    routers: HashMap<u128, Router>,
}

impl MemoryStore {
    /// The view that the store holds.
    pub closed spec fn view_of(self) -> Rib {
        Map::new(
            |k: PeerKey|
                self.routers@.contains_key(k.0) && self.routers@[k.0].peers().contains_key(k.1),
            |k: PeerKey| self.routers@[k.0].peers()[k.1],
        )
    }

    /// A store that knows no peer.
    pub fn new() -> (r: MemoryStore)
        ensures
            r.rib() == Map::<PeerKey, PrefixSet>::empty(),
    {
        let r = MemoryStore { routers: HashMap::new() };
        assert(r.view_of() =~= Map::<PeerKey, PrefixSet>::empty());
        r
    }

    /// Takes the router out of the store; a router without peers where the
    /// store has none under the address.
    fn take_router(&mut self, router: u128) -> (r: Router)
        ensures
            final(self).routers@ == old(self).routers@.remove(router),
            r.peers() == (if old(self).routers@.contains_key(router) {
                old(self).routers@[router].peers()
            } else {
                Map::empty()
            }),
    {
        match self.routers.remove(&router) {
            Some(found) => found,
            None => Router::new(),
        }
    }
}

impl StateStore for MemoryStore {
    open spec fn rib(&self) -> Rib {
        self.view_of()
    }

    fn get_peers(&self) -> (r: Vec<(IpAddress, IpAddress)>) {
        let mut out: Vec<(IpAddress, IpAddress)> = Vec::new();
        let ghost items = self.routers.iter().remaining();
        let ghost rib = self.view_of();
        for (addr, router) in it: self.routers.iter()
            invariant
                rib == self.view_of(),
                it.seq() == items,
                it.seq().no_duplicates(),
                forall|i: int|
                    0 <= i < it.seq().len() ==> self.routers@.contains_key(
                        *(#[trigger] it.seq()[i]).0,
                    ) && self.routers@[*it.seq()[i].0] == *it.seq()[i].1,
                forall|n: int|
                    0 <= n < out@.len() ==> {
                        &&& (#[trigger] out@[n]).0 is V6
                        &&& out@[n].1 is V6
                        &&& rib.contains_key(peer_key(out@[n].0, out@[n].1))
                        &&& exists|i: int|
                            0 <= i < it.index() && *(#[trigger] it.seq()[i]).0
                                == out@[n].0.mapped_bits()
                    },
                forall|k: PeerKey, i: int|
                    0 <= i < it.index() && *(#[trigger] it.seq()[i]).0 == k.0
                        && #[trigger] rib.contains_key(k) ==> exists|n: int|
                        0 <= n < out@.len() && peer_key((#[trigger] out@[n]).0, out@[n].1) == k,
                forall|n: int, m: int|
                    0 <= n < m < out@.len() ==> peer_key((#[trigger] out@[n]).0, out@[n].1)
                        != peer_key((#[trigger] out@[m]).0, out@[m].1),
        {
            let ghost before = out@;
            let ghost index = it.index();
            assert(self.routers@.contains_key(*addr) && self.routers@[*addr] == *router);
            let mut listed = router.peer_pairs(*addr);
            let ghost added = listed@;
            out.append(&mut listed);
            proof {
                assert(out@ == before + added);
                assert forall|n: int| 0 <= n < out@.len() implies {
                    &&& (#[trigger] out@[n]).0 is V6
                    &&& out@[n].1 is V6
                    &&& rib.contains_key(peer_key(out@[n].0, out@[n].1))
                    &&& exists|i: int|
                        0 <= i < index + 1 && *(#[trigger] items[i]).0 == out@[n].0.mapped_bits()
                } by {
                    if n < before.len() {
                        assert(out@[n] == before[n]);
                        let i = choose|i: int|
                            0 <= i < index && *(#[trigger] items[i]).0
                                == before[n].0.mapped_bits();
                        assert(0 <= i < index + 1 && *items[i].0 == out@[n].0.mapped_bits());
                    } else {
                        let t = added[n - before.len()];
                        assert(out@[n] == t);
                        assert(t.0 == IpAddress::V6(*addr));
                        assert(*items[index].0 == t.0.mapped_bits());
                    }
                }
                assert forall|k: PeerKey, i: int|
                    0 <= i < index + 1 && *(#[trigger] items[i]).0 == k.0
                        && #[trigger] rib.contains_key(k) implies exists|n: int|
                    0 <= n < out@.len() && peer_key((#[trigger] out@[n]).0, out@[n].1) == k by {
                    if i < index {
                        let n = choose|n: int|
                            0 <= n < before.len() && peer_key((#[trigger] before[n]).0, before[n].1)
                                == k;
                        assert(out@[n] == before[n]);
                    } else {
                        assert(router.peers().contains_key(k.1));
                        let j = choose|j: int|
                            0 <= j < added.len() && (#[trigger] added[j]).1 == IpAddress::V6(k.1);
                        assert(out@[before.len() + j] == added[j]);
                        assert(added[j].0 == IpAddress::V6(*addr));
                        assert(peer_key(added[j].0, added[j].1) == k);
                    }
                }
                assert forall|n: int, m: int| 0 <= n < m < out@.len() implies peer_key(
                    (#[trigger] out@[n]).0,
                    out@[n].1,
                ) != peer_key((#[trigger] out@[m]).0, out@[m].1) by {
                    if m < before.len() {
                        assert(out@[n] == before[n] && out@[m] == before[m]);
                    } else if n >= before.len() {
                        let a = added[n - before.len()];
                        let b = added[m - before.len()];
                        assert(out@[n] == a && out@[m] == b);
                        assert(a.1 is V6 && b.1 is V6);
                        assert(a.1 != b.1);
                    } else {
                        assert(out@[n] == before[n]);
                        assert(out@[m] == added[m - before.len()]);
                        assert(added[m - before.len()].0 == IpAddress::V6(*addr));
                        let i = choose|i: int|
                            0 <= i < index && *(#[trigger] items[i]).0
                                == before[n].0.mapped_bits();
                        if before[n].0.mapped_bits() == *addr {
                            assert(items[i] == items[index]);
                        }
                    }
                }
            }
        }
        proof {
            assert forall|k: PeerKey| #[trigger] rib.contains_key(k) implies exists|n: int|
                0 <= n < out@.len() && peer_key((#[trigger] out@[n]).0, out@[n].1) == k by {
                let pair = (&k.0, &self.routers@[k.0]);
                assert(items.contains(pair));
                let i = choose|i: int| 0 <= i < items.len() && items[i] == pair;
                assert(*items[i].0 == k.0);
            }
        }
        out
    }

    fn add_peer(&mut self, router_addr: &IpAddress, peer_addr: &IpAddress) {
        let r: u128 = router_addr.to_bits();
        let ghost before = self.view_of();
        let mut router = self.take_router(r);
        router.add_peer(peer_addr);
        self.routers.insert(r, router);
        assert(self.view_of() =~= rib_with_peer(before, peer_key(*router_addr, *peer_addr)));
    }

    fn remove_peer(&mut self, router_addr: &IpAddress, peer_addr: &IpAddress) {
        let r: u128 = router_addr.to_bits();
        let ghost before = self.view_of();
        let mut router = self.take_router(r);
        router.remove_peer(peer_addr);
        let ghost left = router.peers();
        if !router.is_empty() {
            self.routers.insert(r, router);
        }
        assert forall|k: PeerKey| #[trigger]
            self.view_of().contains_key(k) == before.remove(
                peer_key(*router_addr, *peer_addr),
            ).contains_key(k) by {
            if k.0 == r {
                assert(self.view_of().contains_key(k) == left.contains_key(k.1));
            }
        }
        assert(self.view_of() =~= before.remove(peer_key(*router_addr, *peer_addr)));
    }

    fn get_updates_by_peer(&self, router_addr: &IpAddress, peer_addr: &IpAddress) -> (r: Vec<
        TimedPrefix,
    >) {
        let r: u128 = router_addr.to_bits();
        match self.routers.get(&r) {
            Some(router) => router.get_updates_by_peer(peer_addr),
            None => Vec::new(),
        }
    }

    fn update_at(
        &mut self,
        router_addr: &IpAddress,
        peer_addr: &IpAddress,
        update: &Update,
        now: i64,
    ) -> (emit: bool) {
        let r: u128 = router_addr.to_bits();
        let ghost before = self.view_of();
        let mut router = self.take_router(r);
        let emit = router.update_at(peer_addr, update, now);
        self.routers.insert(r, router);
        assert(self.view_of() =~= rib_after(
            before,
            peer_key(*router_addr, *peer_addr),
            key_of(*update),
            update.announced,
            now,
        ));
        emit
    }

    fn update(&mut self, router_addr: &IpAddress, peer_addr: &IpAddress, update: &Update) -> (emit:
        bool) {
        let now = now_millis();
        self.update_at(router_addr, peer_addr, update, now)
    }
}

impl Peer {
    /// A peer that announces the prefixes of a list of a snapshot.
    pub fn from_prefixes(peer_addr: IpAddress, prefixes: &Vec<PrefixEntry>) -> (r: Peer)
        ensures
            r.prefixes() == set_of_prefixes(prefixes@),
    {
        let mut peer = Peer::new(peer_addr);
        let mut i: usize = 0;
        while i < prefixes.len()
            invariant
                i <= prefixes@.len(),
                peer.prefixes() == set_of_prefixes(prefixes@.take(i as int)),
            decreases prefixes@.len() - i,
        {
            proof {
                assert(prefixes@.take(i + 1).drop_last() =~= prefixes@.take(i as int));
            }
            let p = prefixes[i];
            peer.observe(IpAddress::V6(p.0), p.1, p.2, p.3, true, p.4);
            i += 1;
        }
        assert(prefixes@.take(prefixes@.len() as int) =~= prefixes@);
        peer
    }
}

impl Router {
    /// Puts a peer in the place of whatever the router knew under its
    /// address.
    fn insert_peer(&mut self, peer_addr: u128, peer: Peer)
        ensures
            final(self).peers() == old(self).peers().insert(peer_addr, peer.prefixes()),
    {
        let ghost before = self.peers();
        let ghost set = peer.prefixes();
        self.peers.insert(peer_addr, peer);
        assert(self.peers() =~= before.insert(peer_addr, set));
    }
}

impl MemoryStore {
    /// A store that holds the view that a snapshot stands for.
    pub fn from_entries(entries: &Vec<PeerEntry>) -> (r: MemoryStore)
        ensures
            r.rib() == rib_of_entries(entries.deep_view()),
    {
        let mut store = MemoryStore::new();
        let ghost all = entries.deep_view();
        let mut i: usize = 0;
        while i < entries.len()
            invariant
                i <= entries@.len(),
                all == entries.deep_view(),
                store.view_of() == rib_of_entries(all.take(i as int)),
            decreases entries@.len() - i,
        {
            proof {
                assert(all.take(i + 1).drop_last() =~= all.take(i as int));
                assert(all.take(i + 1).last() == all[i as int]);
                assert(entries@[i as int].2.deep_view() =~= entries@[i as int].2@);
            }
            let ghost before = store.view_of();
            let entry = &entries[i];
            let peer = Peer::from_prefixes(IpAddress::V6(entry.1), &entry.2);
            let mut router = store.take_router(entry.0);
            router.insert_peer(entry.1, peer);
            store.routers.insert(entry.0, router);
            assert(store.view_of() =~= before.insert(
                (entry.0, entry.1),
                set_of_prefixes(entry.2@),
            ));
            i += 1;
        }
        assert(all.take(all.len() as int) =~= all);
        store
    }
}

} // verus!
