//! What the collector does when a peer goes down or comes up.
//!
//! When a peer goes down, every prefix that it was believed to announce is
//! withdrawn on its behalf and the peer is forgotten. When a peer comes up,
//! the prefixes of the view that it does not announce again within a waiting
//! time are withdrawn on its behalf: those last seen before the peer came up.

use crate::state::{
    key_of, lists_prefixes, model_key, peer_key, peer_of, prefixes_of, rib_after, rib_after_updates,
    synthesize_withdraw_update_at, synthetic_withdraw, withdraw_model, PeerKey, PrefixKey,
    PrefixSet, Rib, State, TimedPrefix,
};
use crate::state_store::store::StateStore;
use crate::update::{update_models, Update, UpdateMetadata, UpdateModel};
use rand::Rng;
use vstd::prelude::*;

verus! {

/// The waiting time after a peer came up, in seconds, before jitter.
pub const PEER_UP_DELAY_SECS: u64 = 300;

/// The largest jitter, in seconds, by which the waiting time is made longer
/// or shorter.
pub const PEER_UP_JITTER_SECS: i64 = 60;

/// Draws a whole number with `Rng::random_range` of rand on the thread's
/// generator, over the numbers from `low` to `high`, both included. rand
/// gives a value of the range it was asked for; which one is left to chance.
/// It takes no empty range.
#[verifier::external_body]
fn random_between(low: i64, high: i64) -> (r: i64)
    requires
        low <= high,
    ensures
        low <= r <= high,
{
    rand::rng().random_range(low..=high)
}

/// The waiting time for a jitter: 300 seconds and the jitter.
pub fn peer_up_delay_with(jitter: i64) -> (secs: u64)
    requires
        -PEER_UP_JITTER_SECS <= jitter <= PEER_UP_JITTER_SECS,
    ensures
        secs == PEER_UP_DELAY_SECS + jitter,
{
    (300 + jitter) as u64
}

/// A waiting time with a jitter left to chance: between 240 and 360 seconds.
pub fn peer_up_delay() -> (secs: u64)
    ensures
        PEER_UP_DELAY_SECS - PEER_UP_JITTER_SECS <= secs <= PEER_UP_DELAY_SECS
            + PEER_UP_JITTER_SECS,
{
    let jitter = random_between(-PEER_UP_JITTER_SECS, PEER_UP_JITTER_SECS);
    peer_up_delay_with(jitter)
}

/// The peer that `metadata` names.
pub open spec fn metadata_peer(metadata: UpdateMetadata) -> PeerKey {
    peer_key(metadata.router_socket.ip, metadata.peer_addr)
}

/// The withdraws made up at the time `now` for the prefixes of `prefixes`,
/// in order.
pub open spec fn withdraw_models(prefixes: Seq<TimedPrefix>, metadata: UpdateMetadata, now: i64)
    -> Seq<UpdateModel> {
    prefixes.map_values(|t: TimedPrefix| synthetic_withdraw(t, metadata, now))
}

/// Makes up a withdraw at the time `now` for each prefix, in order.
pub fn synthesize_withdraws_at(prefixes: &Vec<TimedPrefix>, metadata: UpdateMetadata, now: i64)
    -> (r: Vec<Update>)
    ensures
        update_models(r@) == withdraw_models(prefixes@, metadata, now),
{
    let mut out: Vec<Update> = Vec::new();
    let ghost all = withdraw_models(prefixes@, metadata, now);
    let mut i: usize = 0;
    assert(update_models(out@) =~= all.take(0));
    while i < prefixes.len()
        invariant
            i <= prefixes@.len(),
            all == withdraw_models(prefixes@, metadata, now),
            update_models(out@) == all.take(i as int),
        decreases prefixes@.len() - i,
    {
        let ghost models = update_models(out@);
        let u = synthesize_withdraw_update_at(prefixes[i], metadata, now);
        out.push(u);
        assert(update_models(out@) =~= models.push(u@));
        assert(all.take(i as int).push(all[i as int]) =~= all.take(i + 1));
        i += 1;
    }
    assert(all.take(all.len() as int) =~= all);
    out
}

/// The prefixes of `prefixes` that were last seen before `startup`, in order.
pub open spec fn stale_of(prefixes: Seq<TimedPrefix>, startup: i64) -> Seq<TimedPrefix>
    decreases prefixes.len(),
{
    if prefixes.len() == 0 {
        Seq::empty()
    } else {
        let before = stale_of(prefixes.drop_last(), startup);
        if prefixes.last().timestamp < startup {
            before.push(prefixes.last())
        } else {
            before
        }
    }
}

/// The prefixes that were last seen before `startup`.
pub fn stale_prefixes(prefixes: &Vec<TimedPrefix>, startup: i64) -> (r: Vec<TimedPrefix>)
    ensures
        r@ == stale_of(prefixes@, startup),
{
    let mut out: Vec<TimedPrefix> = Vec::new();
    let mut i: usize = 0;
    while i < prefixes.len()
        invariant
            i <= prefixes@.len(),
            out@ == stale_of(prefixes@.take(i as int), startup),
        decreases prefixes@.len() - i,
    {
        proof {
            assert(prefixes@.take(i + 1).drop_last() =~= prefixes@.take(i as int));
        }
        if prefixes[i].timestamp < startup {
            out.push(prefixes[i]);
        }
        i += 1;
    }
    assert(prefixes@.take(prefixes@.len() as int) =~= prefixes@);
    out
}

/// The withdraws that make up for a peer that came up at `startup`: one, made
/// up at the time `now`, for each prefix of `prefixes` that was last seen
/// before `startup`, in the order of `prefixes`.
pub fn stale_withdraws_at(
    prefixes: &Vec<TimedPrefix>,
    metadata: UpdateMetadata,
    startup: i64,
    now: i64,
) -> (r: Vec<Update>)
    ensures
        update_models(r@) == withdraw_models(stale_of(prefixes@, startup), metadata, now),
{
    let stale = stale_prefixes(prefixes, startup);
    synthesize_withdraws_at(&stale, metadata, now)
}

/// Whether `updates` holds, for each prefix of `prefixes`, exactly one
/// withdraw made up at the time `now`, and nothing else.
pub open spec fn withdraws_each_once(
    updates: Seq<UpdateModel>,
    prefixes: Set<PrefixKey>,
    metadata: UpdateMetadata,
    now: i64,
) -> bool {
    &&& forall|i: int|
        0 <= i < updates.len() ==> prefixes.contains(model_key(#[trigger] updates[i]))
            && updates[i] == withdraw_model(model_key(updates[i]), metadata, now)
    &&& forall|k: PrefixKey| #[trigger]
        prefixes.contains(k) ==> exists|i: int|
            0 <= i < updates.len() && model_key(#[trigger] updates[i]) == k
    &&& forall|i: int, j: int|
        0 <= i < j < updates.len() ==> model_key(#[trigger] updates[i]) != model_key(
            #[trigger] updates[j],
        )
}

/// The prefixes of a set that were last seen before `startup`.
pub open spec fn stale_keys(set: PrefixSet, startup: i64) -> Set<PrefixKey> {
    Set::new(|k: PrefixKey| set.contains_key(k) && set[k] < startup)
}

/// Withdraws made up for a list that holds every prefix of a set once hold
/// exactly one withdraw for each prefix of the set.
pub proof fn law_one_withdraw_per_listed_prefix(
    list: Seq<TimedPrefix>,
    set: PrefixSet,
    metadata: UpdateMetadata,
    now: i64,
)
    requires
        lists_prefixes(list, set),
    ensures
        withdraws_each_once(withdraw_models(list, metadata, now), set.dom(), metadata, now),
{
    let updates = withdraw_models(list, metadata, now);
    assert forall|i: int| 0 <= i < updates.len() implies model_key(#[trigger] updates[i])
        == list[i].key() by {
        assert(list[i].prefix_addr is V6);
    }
    assert forall|k: PrefixKey| #[trigger] set.dom().contains(k) implies exists|i: int|
        0 <= i < updates.len() && model_key(#[trigger] updates[i]) == k by {
        assert(set.contains_key(k));
        let i = choose|i: int| 0 <= i < list.len() && (#[trigger] list[i]).key() == k;
        assert(model_key(updates[i]) == k);
    }
}

/// The stale prefixes of a list that holds every prefix of a set once are
/// each prefix of the set that was last seen before `startup`, once.
pub proof fn lemma_stale_listing(list: Seq<TimedPrefix>, set: PrefixSet, startup: i64)
    requires
        lists_prefixes(list, set),
    ensures
        lists_prefixes(stale_of(list, startup), set.restrict(stale_keys(set, startup))),
        forall|n: int|
            0 <= n < stale_of(list, startup).len() ==> exists|i: int|
                0 <= i < list.len() && list[i] == #[trigger] stale_of(list, startup)[n],
    decreases list.len(),
{
    let stale = stale_of(list, startup);
    let kept = set.restrict(stale_keys(set, startup));
    if list.len() > 0 {
        let head = list.drop_last();
        let last = list.last();
        let head_set = set.remove(last.key());
        assert(lists_prefixes(head, head_set)) by {
            assert forall|i: int| 0 <= i < head.len() implies {
                &&& (#[trigger] head[i]).prefix_addr is V6
                &&& head_set.contains_key(head[i].key())
                &&& head_set[head[i].key()] == head[i].timestamp
            } by {
                assert(head[i] == list[i]);
                assert(list[i].key() != list[list.len() - 1].key());
            }
            assert forall|k: PrefixKey| #[trigger] head_set.contains_key(k) implies exists|i: int|
                0 <= i < head.len() && (#[trigger] head[i]).key() == k by {
                assert(set.contains_key(k));
                let i = choose|i: int| 0 <= i < list.len() && (#[trigger] list[i]).key() == k;
                assert(head[i] == list[i]);
            }
            assert forall|i: int, j: int| 0 <= i < j < head.len() implies (#[trigger] head[i]).key()
                != (#[trigger] head[j]).key() by {
                assert(head[i] == list[i] && head[j] == list[j]);
            }
        }
        lemma_stale_listing(head, head_set, startup);
        let head_stale = stale_of(head, startup);
        let head_kept = head_set.restrict(stale_keys(head_set, startup));
        assert(set.contains_key(last.key()) && set[last.key()] == last.timestamp) by {
            assert(list[list.len() - 1] == last);
        }
        assert forall|i: int| 0 <= i < stale.len() implies {
            &&& (#[trigger] stale[i]).prefix_addr is V6
            &&& kept.contains_key(stale[i].key())
            &&& kept[stale[i].key()] == stale[i].timestamp
            &&& exists|m: int| 0 <= m < list.len() && list[m] == stale[i]
        } by {
            if i < head_stale.len() {
                assert(stale[i] == head_stale[i]);
                assert(head_kept.contains_key(head_stale[i].key()));
                let m = choose|m: int| 0 <= m < head.len() && head[m] == head_stale[i];
                assert(list[m] == stale[i]);
            } else {
                assert(stale[i] == last);
                assert(list[list.len() - 1] == last);
            }
        }
        assert forall|k: PrefixKey| #[trigger] kept.contains_key(k) implies exists|i: int|
            0 <= i < stale.len() && (#[trigger] stale[i]).key() == k by {
            if k == last.key() {
                assert(stale[stale.len() - 1] == last);
            } else {
                assert(head_kept.contains_key(k));
                let i = choose|i: int|
                    0 <= i < head_stale.len() && (#[trigger] head_stale[i]).key() == k;
                assert(stale[i] == head_stale[i]);
            }
        }
        assert forall|i: int, j: int| 0 <= i < j < stale.len() implies (#[trigger] stale[i]).key()
            != (#[trigger] stale[j]).key() by {
            if j < head_stale.len() {
                assert(stale[i] == head_stale[i] && stale[j] == head_stale[j]);
            } else {
                assert(stale[j] == last);
                assert(stale[i] == head_stale[i]);
                assert(head_kept.contains_key(head_stale[i].key()));
            }
        }
    }
}

/// Compensation after a peer came up. Of the prefixes that the view held for
/// the peer, each one that was last seen before the peer came up, and so was
/// not announced again since, is withdrawn exactly once; each one that was
/// seen again at or after that time is not withdrawn.
pub proof fn law_stale_prefixes_withdrawn_once(
    list: Seq<TimedPrefix>,
    set: PrefixSet,
    metadata: UpdateMetadata,
    startup: i64,
    now: i64,
)
    requires
        lists_prefixes(list, set),
    ensures
        withdraws_each_once(
            withdraw_models(stale_of(list, startup), metadata, now),
            stale_keys(set, startup),
            metadata,
            now,
        ),
        forall|i: int|
            0 <= i < stale_of(list, startup).len() ==> {
                let k = model_key(
                    #[trigger] withdraw_models(stale_of(list, startup), metadata, now)[i],
                );
                set.contains_key(k) && set[k] < startup
            },
{
    lemma_stale_listing(list, set, startup);
    let kept = set.restrict(stale_keys(set, startup));
    law_one_withdraw_per_listed_prefix(stale_of(list, startup), kept, metadata, now);
    assert(kept.dom() =~= stale_keys(set, startup));
}

/// A prefix that is announced again at or after the time a peer came up is
/// not stale afterwards, whatever was known of it before; a prefix that is
/// not observed keeps the time at which it was last seen.
pub proof fn law_announced_again_is_not_stale(
    rib: Rib,
    peer: PeerKey,
    prefix: PrefixKey,
    now: i64,
    startup: i64,
    other: PrefixKey,
)
    requires
        now >= startup,
        other != prefix,
    ensures
        !stale_keys(prefixes_of(rib_after(rib, peer, prefix, true, now), peer), startup).contains(
            prefix,
        ),
        stale_keys(prefixes_of(rib_after(rib, peer, prefix, true, now), peer), startup).contains(
            other,
        ) == stale_keys(prefixes_of(rib, peer), startup).contains(other),
{
}

/// The prefixes of a peer after withdraws of the prefixes `gone` were
/// observed.
pub open spec fn without(set: PrefixSet, gone: Set<PrefixKey>) -> PrefixSet {
    set.remove_keys(gone)
}

/// Observing withdraws of prefixes of one peer takes exactly those prefixes
/// out of the view of that peer and leaves every other peer as it was.
pub proof fn law_withdraws_take_out(
    rib: Rib,
    peer: PeerKey,
    updates: Seq<Update>,
    gone: Set<PrefixKey>,
    now: i64,
)
    requires
        forall|i: int|
            0 <= i < updates.len() ==> peer_of(#[trigger] updates[i]) == peer
                && !updates[i].announced && gone.contains(key_of(updates[i])),
        forall|k: PrefixKey| #[trigger]
            gone.contains(k) ==> exists|i: int|
                0 <= i < updates.len() && key_of(#[trigger] updates[i]) == k,
    ensures
        prefixes_of(rib_after_updates(rib, updates, now), peer) == without(
            prefixes_of(rib, peer),
            gone,
        ),
        forall|other: PeerKey|
            other != peer ==> #[trigger] rib_after_updates(rib, updates, now).contains_key(other)
                == rib.contains_key(other) && prefixes_of(
                rib_after_updates(rib, updates, now),
                other,
            ) == prefixes_of(rib, other),
{
    lemma_withdraws_take_out_seen(rib, peer, updates, now);
    assert(Set::new(
        |k: PrefixKey| exists|i: int| 0 <= i < updates.len() && key_of(#[trigger] updates[i]) == k,
    ) =~= gone);
}

/// The same, with the prefixes taken out named as those of the withdraws.
proof fn lemma_withdraws_take_out_seen(rib: Rib, peer: PeerKey, updates: Seq<Update>, now: i64)
    requires
        forall|i: int|
            0 <= i < updates.len() ==> peer_of(#[trigger] updates[i]) == peer
                && !updates[i].announced,
    ensures
        prefixes_of(rib_after_updates(rib, updates, now), peer) == without(
            prefixes_of(rib, peer),
            Set::new(
                |k: PrefixKey|
                    exists|i: int| 0 <= i < updates.len() && key_of(#[trigger] updates[i]) == k,
            ),
        ),
        forall|other: PeerKey|
            other != peer ==> #[trigger] rib_after_updates(rib, updates, now).contains_key(other)
                == rib.contains_key(other) && prefixes_of(
                rib_after_updates(rib, updates, now),
                other,
            ) == prefixes_of(rib, other),
    decreases updates.len(),
{
    let seen = Set::new(
        |k: PrefixKey| exists|i: int| 0 <= i < updates.len() && key_of(#[trigger] updates[i]) == k,
    );
    if updates.len() == 0 {
        assert(prefixes_of(rib, peer) =~= without(prefixes_of(rib, peer), seen));
    } else {
        let head = updates.drop_last();
        let last = updates.last();
        let head_seen = Set::new(
            |k: PrefixKey| exists|i: int| 0 <= i < head.len() && key_of(#[trigger] head[i]) == k,
        );
        assert forall|i: int| 0 <= i < head.len() implies peer_of(#[trigger] head[i]) == peer
            && !head[i].announced by {
            assert(head[i] == updates[i]);
        }
        lemma_withdraws_take_out_seen(rib, peer, head, now);
        assert(updates[updates.len() - 1] == last);
        assert(seen =~= head_seen.insert(key_of(last))) by {
            assert forall|k: PrefixKey| seen.contains(k) implies head_seen.insert(
                key_of(last),
            ).contains(k) by {
                let i = choose|i: int| 0 <= i < updates.len() && key_of(#[trigger] updates[i]) == k;
                if i < head.len() {
                    assert(head[i] == updates[i]);
                }
            }
            assert forall|k: PrefixKey| head_seen.insert(key_of(last)).contains(
                k,
            ) implies seen.contains(k) by {
                if k == key_of(last) {
                    assert(key_of(updates[updates.len() - 1]) == k);
                } else {
                    let i = choose|i: int| 0 <= i < head.len() && key_of(#[trigger] head[i]) == k;
                    assert(head[i] == updates[i]);
                }
            }
        }
        assert(prefixes_of(rib_after_updates(rib, updates, now), peer) =~= without(
            prefixes_of(rib, peer),
            seen,
        ));
    }
}

impl<T: StateStore> State<T> {
    /// Observes records at the time `now`, in order, whatever they change.
    pub fn apply_updates_at(&mut self, updates: &Vec<Update>, now: i64)
        ensures
            final(self).rib() == rib_after_updates(old(self).rib(), updates@, now),
    {
        let ghost start = self.rib();
        let mut i: usize = 0;
        while i < updates.len()
            invariant
                i <= updates@.len(),
                self.rib() == rib_after_updates(start, updates@.take(i as int), now),
            decreases updates@.len() - i,
        {
            proof {
                assert(updates@.take(i + 1).drop_last() =~= updates@.take(i as int));
            }
            let u = &updates[i];
            self.update_at(&u.router_addr, &u.peer_addr, u, now);
            i += 1;
        }
        assert(updates@.take(updates@.len() as int) =~= updates@);
    }

    /// Withdraws, at the time `now`, every prefix of the peer that `metadata`
    /// names and forgets the peer. The withdraws come back: exactly one for
    /// each prefix that the view held for the peer, in no particular order.
    pub fn synthesize_and_remove_at(&mut self, metadata: UpdateMetadata, now: i64) -> (r: Vec<
        Update,
    >)
        ensures
            withdraws_each_once(
                update_models(r@),
                prefixes_of(old(self).rib(), metadata_peer(metadata)).dom(),
                metadata,
                now,
            ),
            final(self).rib() == old(self).rib().remove(metadata_peer(metadata)),
    {
        let prefixes = self.get_updates_by_peer(&metadata.router_socket.ip, &metadata.peer_addr);
        let withdraws = synthesize_withdraws_at(&prefixes, metadata, now);
        proof {
            law_one_withdraw_per_listed_prefix(
                prefixes@,
                prefixes_of(self.rib(), metadata_peer(metadata)),
                metadata,
                now,
            );
        }
        self.remove_peer(&metadata.router_socket.ip, &metadata.peer_addr);
        withdraws
    }
}

} // verus!
