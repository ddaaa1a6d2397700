//! What a store of the view must do.

use crate::addr::IpAddress;
use crate::state::{
    emits, key_of, lists_peers, lists_prefixes, peer_key, prefixes_of, rib_after, rib_with_peer,
    Rib, TimedPrefix,
};
use crate::update::Update;
use vstd::prelude::*;

verus! {

/// A store of the view of the routing information base.
///
/// Every operation touches one peer, named by the router's and the peer's
/// address; IPv4 and IPv4-mapped IPv6 addresses name the same router or peer.
pub trait StateStore {
    /// The view that the store holds.
    spec fn rib(&self) -> Rib;

    /// Lists the peers that the store knows, each once, in no particular
    /// order.
    fn get_peers(&self) -> (r: Vec<(IpAddress, IpAddress)>)
        ensures
            lists_peers(r@, self.rib()),
    ;

    /// Makes the peer known. A peer that is known keeps its prefixes.
    fn add_peer(&mut self, router_addr: &IpAddress, peer_addr: &IpAddress)
        ensures
            final(self).rib() == rib_with_peer(old(self).rib(), peer_key(*router_addr, *peer_addr)),
    ;

    /// Forgets the peer and all its prefixes.
    fn remove_peer(&mut self, router_addr: &IpAddress, peer_addr: &IpAddress)
        ensures
            final(self).rib() == old(self).rib().remove(peer_key(*router_addr, *peer_addr)),
    ;

    /// Lists the prefixes of the peer, each once, in no particular order;
    /// none for a peer that is not known.
    fn get_updates_by_peer(&self, router_addr: &IpAddress, peer_addr: &IpAddress) -> (r: Vec<
        TimedPrefix,
    >)
        ensures
            lists_prefixes(r@, prefixes_of(self.rib(), peer_key(*router_addr, *peer_addr))),
    ;

    /// Records the observation `update` at the time `now` and says whether
    /// it is to be emitted: an announce of a prefix that was absent, or a
    /// withdraw of a prefix that was present.
    fn update_at(
        &mut self,
        router_addr: &IpAddress,
        peer_addr: &IpAddress,
        update: &Update,
        now: i64,
    ) -> (emit: bool)
        ensures
            emit == emits(
                old(self).rib(),
                peer_key(*router_addr, *peer_addr),
                key_of(*update),
                update.announced,
            ),
            final(self).rib() == rib_after(
                old(self).rib(),
                peer_key(*router_addr, *peer_addr),
                key_of(*update),
                update.announced,
                now,
            ),
    ;

    /// Records the observation `update` at the current time and says
    /// whether it is to be emitted.
    fn update(&mut self, router_addr: &IpAddress, peer_addr: &IpAddress, update: &Update) -> (emit:
        bool)
        ensures
            emit == emits(
                old(self).rib(),
                peer_key(*router_addr, *peer_addr),
                key_of(*update),
                update.announced,
            ),
            exists|now: i64|
                final(self).rib() == rib_after(
                    old(self).rib(),
                    peer_key(*router_addr, *peer_addr),
                    key_of(*update),
                    update.announced,
                    now,
                ),
    ;
}

} // verus!
