//! The view of the routing information base and the rules that keep it.
//!
//! For every (router, peer) the view holds the prefixes that the collector
//! believes the peer to announce, each with the time it was last seen. An
//! observation is emitted downstream exactly when it changes that belief: an
//! announce of a prefix that was absent, or a withdraw of a prefix that was
//! present.

use crate::addr::{map_to_ipv6, IpAddress};
use crate::clock::now_millis;
use crate::message::{Attributes, NetworkPrefix, Origin};
use crate::state_store::store::StateStore;
use crate::update::{
    decoded_update, origin_name, path_of, PathModel, Update, UpdateMetadata, UpdateModel,
};
use vstd::prelude::*;

verus! {

/// What identifies a prefix within the view of one peer: its address in
/// 128-bit form, its length, and the policy stage and direction under which
/// it was seen.
#[derive(Clone, Copy, Debug, PartialEq, Eq, Hash, Structural)]
pub struct PrefixKey {
    pub addr: u128,
    pub len: u8,
    pub is_post_policy: bool,
    pub is_adj_rib_out: bool,
}

/// What identifies a peer: the router's address and the peer's address, both
/// in 128-bit form.
pub type PeerKey = (u128, u128);

/// The prefixes of one peer, each with the time it was last seen in
/// milliseconds since the Unix epoch.
pub type PrefixSet = Map<PrefixKey, i64>;

/// The view of the routing information base: the prefixes of every peer.
pub type Rib = Map<PeerKey, PrefixSet>;

/// A prefix with the time it was last seen.
///
/// Two values are equal when they name the same prefix under the same policy
/// stage and direction; the time is not part of what a value is.
#[derive(Clone, Copy, Debug)]
pub struct TimedPrefix {
    pub prefix_addr: IpAddress,
    pub prefix_len: u8,
    pub is_post_policy: bool,
    pub is_adj_rib_out: bool,
    /// Milliseconds since the Unix epoch.
    pub timestamp: i64,
}

impl TimedPrefix {
    /// What identifies the prefix in the view.
    pub open spec fn key(self) -> PrefixKey {
        PrefixKey {
            addr: self.prefix_addr.mapped_bits(),
            len: self.prefix_len,
            is_post_policy: self.is_post_policy,
            is_adj_rib_out: self.is_adj_rib_out,
        }
    }
}

impl PartialEq for TimedPrefix {
    fn eq(&self, other: &TimedPrefix) -> (r: bool) {
        self.prefix_addr == other.prefix_addr && self.prefix_len == other.prefix_len
            && self.is_post_policy == other.is_post_policy && self.is_adj_rib_out
            == other.is_adj_rib_out
    }
}

impl vstd::std_specs::cmp::PartialEqSpecImpl for TimedPrefix {
    open spec fn obeys_eq_spec() -> bool {
        true
    }

    open spec fn eq_spec(&self, other: &TimedPrefix) -> bool {
        self.prefix_addr == other.prefix_addr && self.prefix_len == other.prefix_len
            && self.is_post_policy == other.is_post_policy && self.is_adj_rib_out
            == other.is_adj_rib_out
    }
}

impl Eq for TimedPrefix {

}

/// What identifies the prefix of a record in the view.
pub open spec fn key_of(update: Update) -> PrefixKey {
    PrefixKey {
        addr: update.prefix_addr.mapped_bits(),
        len: update.prefix_len,
        is_post_policy: update.is_post_policy,
        is_adj_rib_out: update.is_adj_rib_out,
    }
}

/// The key of the peer `peer` of the router `router`.
pub open spec fn peer_key(router: IpAddress, peer: IpAddress) -> PeerKey {
    (router.mapped_bits(), peer.mapped_bits())
}

/// The prefixes that the view holds for a peer: none for a peer it does not
/// know.
pub open spec fn prefixes_of(rib: Rib, peer: PeerKey) -> PrefixSet {
    if rib.contains_key(peer) {
        rib[peer]
    } else {
        Map::empty()
    }
}

/// Whether the view holds the prefix for the peer.
pub open spec fn holds(rib: Rib, peer: PeerKey, prefix: PrefixKey) -> bool {
    prefixes_of(rib, peer).contains_key(prefix)
}

/// Whether an observation is emitted: an announce of an absent prefix or a
/// withdraw of a present one.
pub open spec fn emits(rib: Rib, peer: PeerKey, prefix: PrefixKey, announced: bool) -> bool {
    announced != holds(rib, peer, prefix)
}

/// The prefixes of a peer after an observation at the time `now`: an announce
/// puts the prefix in with that time, a withdraw takes it out.
pub open spec fn prefixes_after(set: PrefixSet, prefix: PrefixKey, announced: bool, now: i64)
    -> PrefixSet {
    if announced {
        set.insert(prefix, now)
    } else {
        set.remove(prefix)
    }
}

/// The view after an observation at the time `now`. The peer is known
/// afterwards, whatever was observed.
pub open spec fn rib_after(rib: Rib, peer: PeerKey, prefix: PrefixKey, announced: bool, now: i64)
    -> Rib {
    rib.insert(peer, prefixes_after(prefixes_of(rib, peer), prefix, announced, now))
}

/// The view once the peer is known: unchanged where it was, else with the
/// peer and no prefix.
pub open spec fn rib_with_peer(rib: Rib, peer: PeerKey) -> Rib {
    rib.insert(peer, prefixes_of(rib, peer))
}

/// Whether `list` holds every prefix of `set` once, with its time and with its
/// address in 128-bit form, and nothing else.
pub open spec fn lists_prefixes(list: Seq<TimedPrefix>, set: PrefixSet) -> bool {
    &&& forall|i: int|
        0 <= i < list.len() ==> {
            &&& (#[trigger] list[i]).prefix_addr is V6
            &&& set.contains_key(list[i].key())
            &&& set[list[i].key()] == list[i].timestamp
        }
    &&& forall|k: PrefixKey| #[trigger]
        set.contains_key(k) ==> exists|i: int| 0 <= i < list.len() && (#[trigger] list[i]).key() == k
    &&& forall|i: int, j: int|
        0 <= i < j < list.len() ==> (#[trigger] list[i]).key() != (#[trigger] list[j]).key()
}

/// Whether `list` holds every peer of the view once, with both addresses in
/// 128-bit form, and nothing else.
pub open spec fn lists_peers(list: Seq<(IpAddress, IpAddress)>, rib: Rib) -> bool {
    &&& forall|i: int|
        0 <= i < list.len() ==> {
            &&& (#[trigger] list[i]).0 is V6
            &&& list[i].1 is V6
            &&& rib.contains_key(peer_key(list[i].0, list[i].1))
        }
    &&& forall|k: PeerKey| #[trigger]
        rib.contains_key(k) ==> exists|i: int|
            0 <= i < list.len() && peer_key((#[trigger] list[i]).0, list[i].1) == k
    &&& forall|i: int, j: int|
        0 <= i < j < list.len() ==> peer_key((#[trigger] list[i]).0, list[i].1) != peer_key(
            (#[trigger] list[j]).0,
            list[j].1,
        )
}

/// The record of a withdraw that the collector makes up at the time `now`
/// for the prefix `prefix` of the peer that `metadata` names: no path
/// attributes, origin `INCOMPLETE`, every address in its 128-bit form.
pub open spec fn withdraw_model(prefix: PrefixKey, metadata: UpdateMetadata, now: i64)
    -> UpdateModel {
    UpdateModel {
        time_received_ns: now,
        time_bmp_header_ns: now,
        router_addr: metadata.router_socket.ip.mapped(),
        router_port: metadata.router_socket.port,
        peer_addr: metadata.peer_addr.mapped(),
        peer_bgp_id: metadata.peer_bgp_id,
        peer_asn: metadata.peer_asn,
        prefix_addr: IpAddress::V6(prefix.addr),
        prefix_len: prefix.len,
        is_post_policy: prefix.is_post_policy,
        is_adj_rib_out: prefix.is_adj_rib_out,
        announced: false,
        synthetic: true,
        path: PathModel {
            origin: "INCOMPLETE"@,
            as_path: Seq::empty(),
            next_hop: None,
            multi_exit_discriminator: None,
            local_preference: None,
            only_to_customer: None,
            atomic_aggregate: false,
            aggregator_asn: None,
            aggregator_bgp_id: None,
            communities: Seq::empty(),
            extended_communities: Seq::empty(),
            large_communities: Seq::empty(),
            originator_id: None,
            cluster_list: Seq::empty(),
            mp_reach_afi: None,
            mp_reach_safi: None,
            mp_unreach_afi: None,
            mp_unreach_safi: None,
        },
    }
}

/// The record of a withdraw that the collector makes up at the time `now`
/// for a prefix that the view held. It keeps the prefix, the policy stage and
/// the direction; the time at which the prefix was last seen plays no part.
pub open spec fn synthetic_withdraw(prefix: TimedPrefix, metadata: UpdateMetadata, now: i64)
    -> UpdateModel {
    withdraw_model(prefix.key(), metadata, now)
}

/// What identifies the prefix of a record, read from its mathematical value.
pub open spec fn model_key(update: UpdateModel) -> PrefixKey {
    PrefixKey {
        addr: update.prefix_addr.mapped_bits(),
        len: update.prefix_len,
        is_post_policy: update.is_post_policy,
        is_adj_rib_out: update.is_adj_rib_out,
    }
}

/// Makes up the withdraw of a prefix at the time `now`.
pub fn synthesize_withdraw_update_at(prefix: TimedPrefix, metadata: UpdateMetadata, now: i64) -> (r:
    Update)
    ensures
        r@ == synthetic_withdraw(prefix, metadata, now),
        key_of(r) == prefix.key(),
{
    let r = Update {
        time_received_ns: now,
        time_bmp_header_ns: now,
        router_addr: map_to_ipv6(metadata.router_socket.ip),
        router_port: metadata.router_socket.port,
        peer_addr: map_to_ipv6(metadata.peer_addr),
        peer_bgp_id: metadata.peer_bgp_id,
        peer_asn: metadata.peer_asn,
        prefix_addr: map_to_ipv6(prefix.prefix_addr),
        prefix_len: prefix.prefix_len,
        is_post_policy: prefix.is_post_policy,
        is_adj_rib_out: prefix.is_adj_rib_out,
        announced: false,
        synthetic: true,
        origin: origin_name(Origin::Incomplete),
        as_path: Vec::new(),
        next_hop: None,
        multi_exit_discriminator: None,
        local_preference: None,
        only_to_customer: None,
        atomic_aggregate: false,
        aggregator_asn: None,
        aggregator_bgp_id: None,
        communities: Vec::new(),
        extended_communities: Vec::new(),
        large_communities: Vec::new(),
        originator_id: None,
        cluster_list: Vec::new(),
        mp_reach_afi: None,
        mp_reach_safi: None,
        mp_unreach_afi: None,
        mp_unreach_safi: None,
    };
    assert(r.extended_communities.deep_view() =~= Seq::<(u8, u8, Seq<u8>)>::empty());
    r
}

/// Makes up the withdraw of a prefix at the current time.
pub fn synthesize_withdraw_update(prefix: TimedPrefix, metadata: UpdateMetadata) -> (r: Update)
    ensures
        exists|now: i64| r@ == synthetic_withdraw(prefix, metadata, now),
        key_of(r) == prefix.key(),
{
    let now = now_millis();
    synthesize_withdraw_update_at(prefix, metadata, now)
}

/// The peer that a record concerns.
pub open spec fn peer_of(update: Update) -> PeerKey {
    peer_key(update.router_addr, update.peer_addr)
}

/// The view after the records of `updates` were observed in order, all at the
/// time `now`.
pub open spec fn rib_after_updates(rib: Rib, updates: Seq<Update>, now: i64) -> Rib
    decreases updates.len(),
{
    if updates.len() == 0 {
        rib
    } else {
        let u = updates.last();
        rib_after(
            rib_after_updates(rib, updates.drop_last(), now),
            peer_of(u),
            key_of(u),
            u.announced,
            now,
        )
    }
}

/// The records of `updates` that are emitted when they are observed in order,
/// in that order: each one that changed the view as it stood when the record
/// was observed.
pub open spec fn emitted_updates(rib: Rib, updates: Seq<Update>, now: i64) -> Seq<Update>
    decreases updates.len(),
{
    if updates.len() == 0 {
        Seq::empty()
    } else {
        let u = updates.last();
        let before = emitted_updates(rib, updates.drop_last(), now);
        if emits(
            rib_after_updates(rib, updates.drop_last(), now),
            peer_of(u),
            key_of(u),
            u.announced,
        ) {
            before.push(u)
        } else {
            before
        }
    }
}

/// The view of the routing information base, kept in a store.
pub struct State<T: StateStore> {
    pub store: T,
}

impl<T: StateStore> State<T> {
    /// The view that the state holds.
    pub open spec fn rib(&self) -> Rib {
        self.store.rib()
    }

    /// A state that keeps its view in `store`.
    pub fn new(store: T) -> (r: State<T>)
        ensures
            r.store == store,
    {
        State { store }
    }

    /// Lists the prefixes of the peer, each once, in no particular order.
    pub fn get_updates_by_peer(&self, router_addr: &IpAddress, peer_addr: &IpAddress) -> (r: Vec<
        TimedPrefix,
    >)
        ensures
            lists_prefixes(r@, prefixes_of(self.rib(), peer_key(*router_addr, *peer_addr))),
    {
        self.store.get_updates_by_peer(router_addr, peer_addr)
    }

    /// Makes the peer known. A peer that is known keeps its prefixes.
    pub fn add_peer(&mut self, router_addr: &IpAddress, peer_addr: &IpAddress)
        ensures
            final(self).rib() == rib_with_peer(old(self).rib(), peer_key(*router_addr, *peer_addr)),
    {
        self.store.add_peer(router_addr, peer_addr);
    }

    /// Forgets the peer and all its prefixes.
    pub fn remove_peer(&mut self, router_addr: &IpAddress, peer_addr: &IpAddress)
        ensures
            final(self).rib() == old(self).rib().remove(peer_key(*router_addr, *peer_addr)),
    {
        self.store.remove_peer(router_addr, peer_addr);
    }

    /// Records an observation at the time `now` and says whether it is to be
    /// emitted: an announce of a prefix that was absent, or a withdraw of a
    /// prefix that was present.
    pub fn update_at(
        &mut self,
        router_addr: &IpAddress,
        peer_addr: &IpAddress,
        update: &Update,
        now: i64,
    ) -> (emit: bool)
        ensures
            emit == emits(
                old(self).rib(),
                peer_key(*router_addr, *peer_addr),
                key_of(*update),
                update.announced,
            ),
            final(self).rib() == rib_after(
                old(self).rib(),
                peer_key(*router_addr, *peer_addr),
                key_of(*update),
                update.announced,
                now,
            ),
    {
        self.store.update_at(router_addr, peer_addr, update, now)
    }

    /// Records an observation at the current time and says whether it is to
    /// be emitted.
    pub fn update(&mut self, router_addr: &IpAddress, peer_addr: &IpAddress, update: &Update) -> (emit:
        bool)
        ensures
            emit == emits(
                old(self).rib(),
                peer_key(*router_addr, *peer_addr),
                key_of(*update),
                update.announced,
            ),
            exists|now: i64|
                final(self).rib() == rib_after(
                    old(self).rib(),
                    peer_key(*router_addr, *peer_addr),
                    key_of(*update),
                    update.announced,
                    now,
                ),
    {
        let ghost before = self.rib();
        let emit = self.store.update(router_addr, peer_addr, update);
        proof {
            let now = choose|now: i64|
                self.store.rib() == rib_after(
                    before,
                    peer_key(*router_addr, *peer_addr),
                    key_of(*update),
                    update.announced,
                    now,
                );
            assert(self.rib() == rib_after(
                before,
                peer_key(*router_addr, *peer_addr),
                key_of(*update),
                update.announced,
                now,
            ));
        }
        emit
    }

    /// Passes records through the view at the time `now`, in order, and gives
    /// back those that changed it.
    pub fn filter_updates_at(&mut self, updates: Vec<Update>, now: i64) -> (r: Vec<Update>)
        ensures
            r@ == emitted_updates(old(self).rib(), updates@, now),
            final(self).rib() == rib_after_updates(old(self).rib(), updates@, now),
    {
        let ghost start = self.rib();
        let ghost all = updates@;
        let mut out: Vec<Update> = Vec::new();
        for update in it: updates
            invariant
                it.seq() == all,
                out@ == emitted_updates(start, all.take(it.index()), now),
                self.rib() == rib_after_updates(start, all.take(it.index()), now),
        {
            proof {
                assert(all.take(it.index() + 1).drop_last() =~= all.take(it.index()));
                assert(all.take(it.index() + 1).last() == update);
            }
            let emit = self.store.update_at(&update.router_addr, &update.peer_addr, &update, now);
            if emit {
                out.push(update);
            }
        }
        assert(all.take(all.len() as int) =~= all);
        out
    }
}

/// A prefix of a peer of a router, with the time it was last seen.
pub type RouterPeerUpdate = (IpAddress, IpAddress, TimedPrefix);

/// Whether `list` holds every prefix of every peer of the view once, with
/// its time and with every address in 128-bit form, and nothing else.
pub open spec fn lists_all(list: Seq<RouterPeerUpdate>, rib: Rib) -> bool {
    &&& forall|i: int|
        0 <= i < list.len() ==> {
            &&& (#[trigger] list[i]).0 is V6
            &&& list[i].1 is V6
            &&& list[i].2.prefix_addr is V6
            &&& holds(rib, peer_key(list[i].0, list[i].1), list[i].2.key())
            &&& prefixes_of(rib, peer_key(list[i].0, list[i].1))[list[i].2.key()]
                == list[i].2.timestamp
        }
    &&& forall|peer: PeerKey, prefix: PrefixKey| #[trigger]
        holds(rib, peer, prefix) ==> exists|i: int|
            0 <= i < list.len() && peer_key((#[trigger] list[i]).0, list[i].1) == peer
                && list[i].2.key() == prefix
    &&& forall|i: int, j: int|
        0 <= i < j < list.len() ==> peer_key((#[trigger] list[i]).0, list[i].1) != peer_key(
            (#[trigger] list[j]).0,
            list[j].1,
        ) || list[i].2.key() != list[j].2.key()
}

impl<T: StateStore> State<T> {
    /// Lists every prefix of every peer of the view, each once and in no
    /// particular order.
    pub fn get_all(&self) -> (r: Vec<RouterPeerUpdate>)
        ensures
            lists_all(r@, self.rib()),
    {
        let peers = self.store.get_peers();
        let ghost rib = self.rib();
        let mut out: Vec<RouterPeerUpdate> = Vec::new();
        let ghost mut owner: Seq<int> = Seq::empty();
        let mut i: usize = 0;
        while i < peers.len()
            invariant
                i <= peers@.len(),
                rib == self.store.rib(),
                lists_peers(peers@, rib),
                owner.len() == out@.len(),
                forall|n: int|
                    0 <= n < out@.len() ==> {
                        &&& 0 <= #[trigger] owner[n] < i
                        &&& out@[n].0 == peers@[owner[n]].0
                        &&& out@[n].1 == peers@[owner[n]].1
                        &&& out@[n].2.prefix_addr is V6
                        &&& rib[peer_key(out@[n].0, out@[n].1)].contains_key(out@[n].2.key())
                        &&& rib[peer_key(out@[n].0, out@[n].1)][out@[n].2.key()]
                            == out@[n].2.timestamp
                    },
                forall|j: int, prefix: PrefixKey|
                    0 <= j < i && #[trigger] rib[peer_key(
                        peers@[j].0,
                        peers@[j].1,
                    )].contains_key(prefix) ==> exists|n: int|
                        0 <= n < out@.len() && #[trigger] owner[n] == j && out@[n].2.key()
                            == prefix,
                forall|n: int, m: int|
                    0 <= n < m < out@.len() ==> #[trigger] owner[n] != #[trigger] owner[m]
                        || out@[n].2.key() != out@[m].2.key(),
            decreases peers@.len() - i,
        {
            let router = peers[i].0;
            let peer = peers[i].1;
            let prefixes = self.store.get_updates_by_peer(&router, &peer);
            let ghost before = out@;
            let ghost before_owner = owner;
            proof {
                assert(rib.contains_key(peer_key(peers@[i as int].0, peers@[i as int].1)));
            }
            let mut k: usize = 0;
            while k < prefixes.len()
                invariant
                    k <= prefixes@.len(),
                    i < peers@.len(),
                    router == peers@[i as int].0,
                    peer == peers@[i as int].1,
                    owner.len() == out@.len(),
                    out@.len() == before.len() + k,
                    owner =~= before_owner + Seq::new(k as nat, |x: int| i as int),
                    forall|n: int| 0 <= n < before.len() ==> out@[n] == before[n],
                    forall|x: int|
                        0 <= x < k ==> (#[trigger] out@[before.len() + x]) == (
                            router,
                            peer,
                            prefixes@[x],
                        ),
                decreases prefixes@.len() - k,
            {
                out.push((router, peer, prefixes[k]));
                proof {
                    owner = owner.push(i as int);
                }
                k += 1;
            }
            proof {
                let set = rib[peer_key(router, peer)];
                assert forall|n: int| 0 <= n < out@.len() implies {
                    &&& 0 <= #[trigger] owner[n] < i + 1
                    &&& out@[n].0 == peers@[owner[n]].0
                    &&& out@[n].1 == peers@[owner[n]].1
                    &&& out@[n].2.prefix_addr is V6
                    &&& rib[peer_key(out@[n].0, out@[n].1)].contains_key(out@[n].2.key())
                    &&& rib[peer_key(out@[n].0, out@[n].1)][out@[n].2.key()]
                        == out@[n].2.timestamp
                } by {
                    if n < before.len() {
                        assert(out@[n] == before[n]);
                        assert(owner[n] == before_owner[n]);
                    } else {
                        let x = n - before.len();
                        assert(out@[before.len() + x] == (router, peer, prefixes@[x]));
                        assert(set.contains_key(prefixes@[x].key()));
                    }
                }
                assert forall|j: int, prefix: PrefixKey|
                    0 <= j < i + 1 && #[trigger] rib[peer_key(
                        peers@[j].0,
                        peers@[j].1,
                    )].contains_key(prefix) implies exists|n: int|
                    0 <= n < out@.len() && #[trigger] owner[n] == j && out@[n].2.key()
                        == prefix by {
                    if j < i {
                        let n = choose|n: int|
                            0 <= n < before.len() && #[trigger] before_owner[n] == j
                                && before[n].2.key() == prefix;
                        assert(out@[n] == before[n]);
                        assert(owner[n] == j);
                    } else {
                        let x = choose|x: int|
                            0 <= x < prefixes@.len() && (#[trigger] prefixes@[x]).key() == prefix;
                        assert(out@[before.len() + x] == (router, peer, prefixes@[x]));
                        assert(owner[before.len() + x] == j);
                    }
                }
                assert forall|n: int, m: int| 0 <= n < m < out@.len() implies #[trigger] owner[n]
                    != #[trigger] owner[m] || out@[n].2.key() != out@[m].2.key() by {
                    if m < before.len() {
                        assert(out@[n] == before[n] && out@[m] == before[m]);
                        assert(owner[n] == before_owner[n] && owner[m] == before_owner[m]);
                    } else if n >= before.len() {
                        let x = n - before.len();
                        let y = m - before.len();
                        assert(out@[before.len() + x] == (router, peer, prefixes@[x]));
                        assert(out@[before.len() + y] == (router, peer, prefixes@[y]));
                        assert(prefixes@[x].key() != prefixes@[y].key());
                    } else {
                        assert(owner[n] == before_owner[n]);
                        assert(owner[m] == i);
                    }
                }
            }
            i += 1;
        }
        proof {
            assert forall|peer: PeerKey, prefix: PrefixKey| #[trigger]
                holds(rib, peer, prefix) implies exists|n: int|
                0 <= n < out@.len() && peer_key((#[trigger] out@[n]).0, out@[n].1) == peer
                    && out@[n].2.key() == prefix by {
                assert(rib.contains_key(peer));
                let j = choose|j: int|
                    0 <= j < peers@.len() && peer_key((#[trigger] peers@[j]).0, peers@[j].1)
                        == peer;
                assert(rib[peer_key(peers@[j].0, peers@[j].1)].contains_key(prefix));
                let n = choose|n: int|
                    0 <= n < out@.len() && #[trigger] owner[n] == j && out@[n].2.key() == prefix;
                assert(peer_key(out@[n].0, out@[n].1) == peer);
            }
            assert forall|n: int, m: int| 0 <= n < m < out@.len() implies peer_key(
                (#[trigger] out@[n]).0,
                out@[n].1,
            ) != peer_key((#[trigger] out@[m]).0, out@[m].1) || out@[n].2.key()
                != out@[m].2.key() by {
                if owner[n] != owner[m] {
                    let a = owner[n];
                    let b = owner[m];
                    if a < b {
                        assert(peer_key(peers@[a].0, peers@[a].1) != peer_key(
                            peers@[b].0,
                            peers@[b].1,
                        ));
                    } else {
                        assert(peer_key(peers@[b].0, peers@[b].1) != peer_key(
                            peers@[a].0,
                            peers@[a].1,
                        ));
                    }
                }
            }
            assert forall|n: int| 0 <= n < out@.len() implies {
                &&& (#[trigger] out@[n]).0 is V6
                &&& out@[n].1 is V6
                &&& out@[n].2.prefix_addr is V6
                &&& holds(rib, peer_key(out@[n].0, out@[n].1), out@[n].2.key())
                &&& prefixes_of(rib, peer_key(out@[n].0, out@[n].1))[out@[n].2.key()]
                    == out@[n].2.timestamp
            } by {
                let a = owner[n];
                assert(rib.contains_key(peer_key(peers@[a].0, peers@[a].1)));
            }
        }
        out
    }
}

/// The view of an optional state: empty where there is none.
pub open spec fn optional_rib<T: StateStore>(state: Option<State<T>>) -> Rib {
    match state {
        Some(s) => s.rib(),
        None => Map::empty(),
    }
}

/// Passes records through the view at the time `now`. With a view, the
/// records that changed it come back, in order; without one, all of them.
pub fn process_updates_at<T: StateStore>(
    state: &mut Option<State<T>>,
    updates: Vec<Update>,
    now: i64,
) -> (r: Vec<Update>)
    ensures
        match *old(state) {
            Some(before) => *final(state) matches Some(after) && after.rib() == rib_after_updates(
                before.rib(),
                updates@,
                now,
            ) && r@ == emitted_updates(before.rib(), updates@, now),
            None => *final(state) is None && r@ == updates@,
        },
{
    match state {
        Some(s) => s.filter_updates_at(updates, now),
        None => updates,
    }
}

/// Passes records through the view at the current time.
pub fn process_updates<T: StateStore>(state: &mut Option<State<T>>, updates: Vec<Update>) -> (r:
    Vec<Update>)
    ensures
        match *old(state) {
            Some(before) => exists|now: i64|
                *final(state) matches Some(after) && after.rib() == #[trigger] rib_after_updates(
                    before.rib(),
                    updates@,
                    now,
                ) && r@ == emitted_updates(before.rib(), updates@, now),
            None => *final(state) is None && r@ == updates@,
        },
{
    let now = now_millis();
    process_updates_at(state, updates, now)
}

/// Passes one record through the view at the current time.
pub fn process_update<T: StateStore>(state: &mut Option<State<T>>, update: Update) -> (r: Vec<
    Update,
>)
    ensures
        match *old(state) {
            Some(before) => exists|now: i64|
                *final(state) matches Some(after) && after.rib() == #[trigger] rib_after_updates(
                    before.rib(),
                    seq![update],
                    now,
                ) && r@ == emitted_updates(before.rib(), seq![update], now),
            None => *final(state) is None && r@ == seq![update],
        },
{
    let mut updates: Vec<Update> = Vec::new();
    updates.push(update);
    assert(updates@ =~= seq![update]);
    process_updates(state, updates)
}

/// Whether the prefix is held just before the observation `i` of a run of
/// observations of that prefix, where `member` says whether it was held
/// before the first: what the observation before `i` announced.
pub open spec fn member_before(member: bool, announced: Seq<bool>, i: int) -> bool {
    if i <= 0 {
        member
    } else {
        announced[i - 1]
    }
}

/// The number of observations in a run that change whether the prefix is
/// held: announces of a prefix that is not held and withdraws of one that is.
pub open spec fn transitions(member: bool, announced: Seq<bool>) -> nat
    decreases announced.len(),
{
    if announced.len() == 0 {
        0
    } else {
        let before = transitions(member, announced.drop_last());
        if announced.last() != member_before(member, announced, announced.len() - 1) {
            before + 1
        } else {
            before
        }
    }
}

/// The directions of a run of records.
pub open spec fn directions(updates: Seq<Update>) -> Seq<bool> {
    updates.map_values(|u: Update| u.announced)
}

/// The emit rule. For every run of announces and withdraws of one prefix of
/// one peer, the records emitted are as many as the observations that change
/// whether the prefix is held; an announce of a held prefix and a withdraw of
/// an absent one are not emitted. Afterwards the prefix is held exactly if
/// the last observation announced it.
pub proof fn law_emits_equal_transitions(
    rib: Rib,
    peer: PeerKey,
    prefix: PrefixKey,
    updates: Seq<Update>,
    now: i64,
)
    requires
        forall|i: int|
            0 <= i < updates.len() ==> peer_of(#[trigger] updates[i]) == peer && key_of(updates[i])
                == prefix,
    ensures
        emitted_updates(rib, updates, now).len() == transitions(
            holds(rib, peer, prefix),
            directions(updates),
        ),
        holds(rib_after_updates(rib, updates, now), peer, prefix) == member_before(
            holds(rib, peer, prefix),
            directions(updates),
            updates.len() as int,
        ),
        forall|i: int|
            0 <= i < updates.len() && #[trigger] directions(updates)[i] == member_before(
                holds(rib, peer, prefix),
                directions(updates),
                i,
            ) ==> !emits(
                rib_after_updates(rib, updates.take(i), now),
                peer,
                prefix,
                updates[i].announced,
            ),
    decreases updates.len(),
{
    if updates.len() > 0 {
        let head = updates.drop_last();
        law_emits_equal_transitions(rib, peer, prefix, head, now);
        assert(directions(updates).drop_last() =~= directions(head));
        assert(updates.last() == updates[updates.len() - 1]);
        assert forall|i: int|
            0 <= i < updates.len() && #[trigger] directions(updates)[i] == member_before(
                holds(rib, peer, prefix),
                directions(updates),
                i,
            ) implies !emits(
            rib_after_updates(rib, updates.take(i), now),
            peer,
            prefix,
            updates[i].announced,
        ) by {
            if i < head.len() {
                assert(head.take(i) =~= updates.take(i));
                assert(directions(head)[i] == directions(updates)[i]);
            } else {
                assert(updates.take(i) =~= head);
            }
        }
    }
}

/// An observation of one prefix of one peer leaves every other prefix and
/// every other peer as it was.
pub proof fn law_observation_is_local(
    rib: Rib,
    peer: PeerKey,
    prefix: PrefixKey,
    announced: bool,
    now: i64,
    other_peer: PeerKey,
    other_prefix: PrefixKey,
)
    requires
        other_peer != peer || other_prefix != prefix,
    ensures
        holds(rib_after(rib, peer, prefix, announced, now), other_peer, other_prefix) == holds(
            rib,
            other_peer,
            other_prefix,
        ),
        holds(rib, other_peer, other_prefix) ==> prefixes_of(
            rib_after(rib, peer, prefix, announced, now),
            other_peer,
        )[other_prefix] == prefixes_of(rib, other_peer)[other_prefix],
{
}

/// Making a peer known is idempotent: the peer is known afterwards, a known
/// peer keeps its prefixes, and making it known again changes nothing.
pub proof fn law_add_peer_is_idempotent(rib: Rib, peer: PeerKey)
    ensures
        rib_with_peer(rib, peer).contains_key(peer),
        prefixes_of(rib_with_peer(rib, peer), peer) == prefixes_of(rib, peer),
        !rib.contains_key(peer) ==> rib_with_peer(rib, peer)[peer] == Map::<
            PrefixKey,
            i64,
        >::empty(),
        rib.contains_key(peer) ==> rib_with_peer(rib, peer) == rib,
        rib_with_peer(rib_with_peer(rib, peer), peer) == rib_with_peer(rib, peer),
{
    if rib.contains_key(peer) {
        assert(rib_with_peer(rib, peer) =~= rib);
    }
    assert(rib_with_peer(rib_with_peer(rib, peer), peer) =~= rib_with_peer(rib, peer));
}

/// Address normalisation. Every address of an emitted record, decoded or made
/// up, is in 128-bit form: an IPv4 address `a` as the IPv4-mapped address
/// `::ffff:a`, an IPv6 address as it is.
pub proof fn law_emitted_addresses_are_mapped(
    metadata: UpdateMetadata,
    attributes: Attributes,
    prefix: NetworkPrefix,
    announced: bool,
    held: TimedPrefix,
    now: i64,
)
    ensures
        ({
            let decoded = decoded_update(metadata, path_of(attributes), prefix, announced, now);
            &&& decoded.router_addr == metadata.router_socket.ip.mapped()
            &&& decoded.peer_addr == metadata.peer_addr.mapped()
            &&& decoded.prefix_addr == prefix.addr.mapped()
            &&& decoded.path.next_hop == match attributes.next_hop {
                Some(hop) => Some(hop.mapped()),
                None => None,
            }
        }),
        ({
            let made_up = synthetic_withdraw(held, metadata, now);
            &&& made_up.router_addr == metadata.router_socket.ip.mapped()
            &&& made_up.peer_addr == metadata.peer_addr.mapped()
            &&& made_up.prefix_addr == held.prefix_addr.mapped()
            &&& made_up.path.next_hop is None
        }),
        forall|a: u32| #[trigger]
            IpAddress::V4(a).mapped() == IpAddress::V6((0xffff_0000_0000 + a) as u128),
        forall|b: u128| #[trigger] IpAddress::V6(b).mapped() == IpAddress::V6(b),
{
}

} // verus!
