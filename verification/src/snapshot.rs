//! The snapshot of the view of the routing information base.
//!
//! A snapshot lists the peers of the view, each with its prefixes and the
//! times at which they were last seen, as plain numbers. bincode turns the
//! list into octets and back. Loading what was dumped gives the view that
//! was dumped.

use crate::state::{lists_peers, peer_key, PeerKey, PrefixKey, PrefixSet, Rib, TimedPrefix};
use crate::state_store::memory::MemoryStore;
use crate::state_store::store::StateStore;
use crate::text::{decimal, push_decimal, push_text};
use vstd::prelude::*;

verus! {

/// A prefix of a snapshot: its address in 128-bit form, its length, whether
/// it was seen after policy, whether it was seen in an Adj-RIB-Out, and when
/// it was last seen.
pub type PrefixEntry = (u128, u8, bool, bool, i64);

/// A peer of a snapshot: the router's address and the peer's address in
/// 128-bit form, and the prefixes of the peer.
pub type PeerEntry = (u128, u128, Vec<PrefixEntry>);

/// The mathematical value of a peer of a snapshot.
pub type PeerEntryModel = (u128, u128, Seq<PrefixEntry>);

/// Why a snapshot cannot be dumped or loaded.
#[derive(Clone, Copy, Debug, PartialEq, Eq, Structural)]
pub enum SnapshotError {
    /// The view could not be turned into octets.
    Encode,
    /// The octets are not those of a snapshot.
    Malformed,
}

/// What identifies a prefix of a snapshot in the view.
pub open spec fn entry_key(p: PrefixEntry) -> PrefixKey {
    PrefixKey { addr: p.0, len: p.1, is_post_policy: p.2, is_adj_rib_out: p.3 }
}

/// The prefixes that a list of a snapshot stands for. Where a prefix is
/// listed twice, the later time counts.
pub open spec fn set_of_prefixes(prefixes: Seq<PrefixEntry>) -> PrefixSet
    decreases prefixes.len(),
{
    if prefixes.len() == 0 {
        Map::empty()
    } else {
        set_of_prefixes(prefixes.drop_last()).insert(entry_key(prefixes.last()), prefixes.last().4)
    }
}

/// The view that a snapshot stands for. Where a peer is listed twice, the
/// later list counts.
pub open spec fn rib_of_entries(entries: Seq<PeerEntryModel>) -> Rib
    decreases entries.len(),
{
    if entries.len() == 0 {
        Map::empty()
    } else {
        rib_of_entries(entries.drop_last()).insert(
            (entries.last().0, entries.last().1),
            set_of_prefixes(entries.last().2),
        )
    }
}

/// The octets that bincode, in its legacy configuration, makes of a
/// snapshot.
pub uninterp spec fn snapshot_encoding(entries: Seq<PeerEntryModel>) -> Seq<u8>;

/// The snapshot that bincode, in its legacy configuration, reads out of
/// octets, or nothing where it refuses them.
pub uninterp spec fn snapshot_decoding(octets: Seq<u8>) -> Option<Seq<PeerEntryModel>>;

/// The error with which bincode refuses to encode a value.
#[verifier::external_type_specification]
#[verifier::external_body]
pub struct ExEncodeError(bincode::error::EncodeError);

/// The error with which bincode refuses to decode octets.
#[verifier::external_type_specification]
#[verifier::external_body]
pub struct ExDecodeError(bincode::error::DecodeError);

/// Encodes a snapshot with `bincode::serde::encode_to_vec` in the legacy
/// configuration. The octets depend on the snapshot alone and are what
/// [`snapshot_encoding`] stands for. The call succeeds: bincode's writer into
/// a vector takes every octet, and of the values of a snapshot (integers,
/// booleans, tuples and vectors) bincode refuses none; it refuses a sequence
/// only where its length is not known beforehand, and a vector's is.
#[verifier::external_body]
fn encode_entries(entries: &Vec<PeerEntry>) -> (r: Result<Vec<u8>, bincode::error::EncodeError>)
    ensures
        r is Ok,
        r matches Ok(octets) ==> octets@ == snapshot_encoding(entries.deep_view()),
{
    bincode::serde::encode_to_vec(entries, bincode::config::legacy())
}

/// Decodes a snapshot with `bincode::serde::decode_from_slice` in the legacy
/// configuration. What comes back depends on the octets alone and is what
/// [`snapshot_decoding`] stands for. bincode reads back what it wrote: octets
/// that are the encoding of a snapshot decode to that snapshot. Of other
/// octets nothing more is claimed.
#[verifier::external_body]
fn decode_entries(octets: &[u8]) -> (r: Result<Vec<PeerEntry>, bincode::error::DecodeError>)
    ensures
        match r {
            Ok(decoded) => snapshot_decoding(octets@) == Some(decoded.deep_view()),
            Err(_) => snapshot_decoding(octets@) is None,
        },
        match r {
            Ok(decoded) => forall|entries: Seq<PeerEntryModel>|
                octets@ == #[trigger] snapshot_encoding(entries) ==> decoded.deep_view() == entries,
            Err(_) => forall|entries: Seq<PeerEntryModel>|
                octets@ != #[trigger] snapshot_encoding(entries),
        },
{
    match bincode::serde::decode_from_slice(octets, bincode::config::legacy()) {
        Ok((entries, _)) => Ok(entries),
        Err(e) => Err(e),
    }
}

/// A list of prefixes that holds every prefix of a set once, with its time,
/// stands for that set.
pub proof fn lemma_prefix_list_stands_for_set(prefixes: Seq<PrefixEntry>, set: PrefixSet)
    requires
        forall|i: int|
            0 <= i < prefixes.len() ==> set.contains_key(entry_key(#[trigger] prefixes[i]))
                && set[entry_key(prefixes[i])] == prefixes[i].4,
        forall|k: PrefixKey| #[trigger]
            set.contains_key(k) ==> exists|i: int|
                0 <= i < prefixes.len() && entry_key(#[trigger] prefixes[i]) == k,
        forall|i: int, j: int|
            0 <= i < j < prefixes.len() ==> entry_key(#[trigger] prefixes[i]) != entry_key(
                #[trigger] prefixes[j],
            ),
    ensures
        set_of_prefixes(prefixes) == set,
    decreases prefixes.len(),
{
    if prefixes.len() == 0 {
        assert(set =~= Map::<PrefixKey, i64>::empty());
    } else {
        let head = prefixes.drop_last();
        let last = prefixes.last();
        let head_set = set.remove(entry_key(last));
        assert(prefixes[prefixes.len() - 1] == last);
        assert forall|i: int| 0 <= i < head.len() implies head_set.contains_key(
            entry_key(#[trigger] head[i]),
        ) && head_set[entry_key(head[i])] == head[i].4 by {
            assert(head[i] == prefixes[i]);
        }
        assert forall|k: PrefixKey| #[trigger] head_set.contains_key(k) implies exists|i: int|
            0 <= i < head.len() && entry_key(#[trigger] head[i]) == k by {
            let i = choose|i: int| 0 <= i < prefixes.len() && entry_key(#[trigger] prefixes[i]) == k;
            assert(head[i] == prefixes[i]);
        }
        assert forall|i: int, j: int| 0 <= i < j < head.len() implies entry_key(
            #[trigger] head[i],
        ) != entry_key(#[trigger] head[j]) by {
            assert(head[i] == prefixes[i] && head[j] == prefixes[j]);
        }
        lemma_prefix_list_stands_for_set(head, head_set);
        assert(set_of_prefixes(prefixes) =~= set);
    }
}

/// A snapshot that holds every peer of a view once, with a list that stands
/// for its prefixes, stands for that view.
pub proof fn lemma_entries_stand_for_rib(entries: Seq<PeerEntryModel>, rib: Rib)
    requires
        forall|i: int|
            0 <= i < entries.len() ==> rib.contains_key(
                ((#[trigger] entries[i]).0, entries[i].1),
            ) && rib[(entries[i].0, entries[i].1)] == set_of_prefixes(entries[i].2),
        forall|k: PeerKey| #[trigger]
            rib.contains_key(k) ==> exists|i: int|
                0 <= i < entries.len() && ((#[trigger] entries[i]).0, entries[i].1) == k,
        forall|i: int, j: int|
            0 <= i < j < entries.len() ==> ((#[trigger] entries[i]).0, entries[i].1) != (
                (#[trigger] entries[j]).0,
                entries[j].1,
            ),
    ensures
        rib_of_entries(entries) == rib,
    decreases entries.len(),
{
    if entries.len() == 0 {
        assert(rib =~= Map::<PeerKey, PrefixSet>::empty());
    } else {
        let head = entries.drop_last();
        let last = entries.last();
        let head_rib = rib.remove((last.0, last.1));
        assert(entries[entries.len() - 1] == last);
        assert forall|i: int| 0 <= i < head.len() implies head_rib.contains_key(
            ((#[trigger] head[i]).0, head[i].1),
        ) && head_rib[(head[i].0, head[i].1)] == set_of_prefixes(head[i].2) by {
            assert(head[i] == entries[i]);
        }
        assert forall|k: PeerKey| #[trigger] head_rib.contains_key(k) implies exists|i: int|
            0 <= i < head.len() && ((#[trigger] head[i]).0, head[i].1) == k by {
            let i = choose|i: int|
                0 <= i < entries.len() && ((#[trigger] entries[i]).0, entries[i].1) == k;
            assert(head[i] == entries[i]);
        }
        assert forall|i: int, j: int| 0 <= i < j < head.len() implies ((#[trigger] head[i]).0, head[i].1)
            != ((#[trigger] head[j]).0, head[j].1) by {
            assert(head[i] == entries[i] && head[j] == entries[j]);
        }
        lemma_entries_stand_for_rib(head, head_rib);
        assert(rib_of_entries(entries) =~= rib);
    }
}

/// The prefixes of a peer as a list of a snapshot.
fn prefix_entries(prefixes: &Vec<TimedPrefix>) -> (r: Vec<PrefixEntry>)
    ensures
        r@.len() == prefixes@.len(),
        forall|i: int|
            0 <= i < r@.len() ==> entry_key(#[trigger] r@[i]) == prefixes@[i].key() && r@[i].4
                == prefixes@[i].timestamp,
{
    let mut out: Vec<PrefixEntry> = Vec::new();
    let mut i: usize = 0;
    while i < prefixes.len()
        invariant
            i <= prefixes@.len(),
            out@.len() == i,
            forall|j: int|
                0 <= j < i ==> entry_key(#[trigger] out@[j]) == prefixes@[j].key() && out@[j].4
                    == prefixes@[j].timestamp,
        decreases prefixes@.len() - i,
    {
        let p = prefixes[i];
        out.push((p.prefix_addr.to_bits(), p.prefix_len, p.is_post_policy, p.is_adj_rib_out, p.timestamp));
        i += 1;
    }
    out
}

/// Lists the view of a store as a snapshot: every peer once, with every one
/// of its prefixes once.
pub fn snapshot_entries<T: StateStore>(store: &T) -> (r: Vec<PeerEntry>)
    ensures
        rib_of_entries(r.deep_view()) == store.rib(),
{
    let peers = store.get_peers();
    let ghost rib = store.rib();
    let mut out: Vec<PeerEntry> = Vec::new();
    let mut i: usize = 0;
    while i < peers.len()
        invariant
            i <= peers@.len(),
            rib == store.rib(),
            lists_peers(peers@, rib),
            out@.len() == i,
            forall|j: int|
                0 <= j < i ==> ((#[trigger] out@[j]).0, out@[j].1) == peer_key(
                    peers@[j].0,
                    peers@[j].1,
                ) && set_of_prefixes(out@[j].2@) == rib[peer_key(peers@[j].0, peers@[j].1)],
        decreases peers@.len() - i,
    {
        let router = peers[i].0;
        let peer = peers[i].1;
        let prefixes = store.get_updates_by_peer(&router, &peer);
        let listed = prefix_entries(&prefixes);
        proof {
            assert(rib.contains_key(peer_key(peers@[i as int].0, peers@[i as int].1)));
            let set = rib[peer_key(router, peer)];
            assert forall|k: PrefixKey| #[trigger] set.contains_key(k) implies exists|n: int|
                0 <= n < listed@.len() && entry_key(#[trigger] listed@[n]) == k by {
                let n = choose|n: int| 0 <= n < prefixes@.len() && (#[trigger] prefixes@[n]).key() == k;
                assert(entry_key(listed@[n]) == k);
            }
            assert forall|a: int, b: int| 0 <= a < b < listed@.len() implies entry_key(
                #[trigger] listed@[a],
            ) != entry_key(#[trigger] listed@[b]) by {
                assert(prefixes@[a].key() != prefixes@[b].key());
            }
            assert forall|n: int| 0 <= n < listed@.len() implies set.contains_key(
                entry_key(#[trigger] listed@[n]),
            ) && set[entry_key(listed@[n])] == listed@[n].4 by {
                assert(set.contains_key(prefixes@[n].key()));
            }
            lemma_prefix_list_stands_for_set(listed@, set);
        }
        out.push((router.to_bits(), peer.to_bits(), listed));
        i += 1;
    }
    proof {
        let entries = out.deep_view();
        assert forall|j: int| 0 <= j < entries.len() implies (#[trigger] entries[j]) == (
            out@[j].0,
            out@[j].1,
            out@[j].2@,
        ) by {
            assert(out@[j].2.deep_view() =~= out@[j].2@);
        }
        assert forall|k: PeerKey| #[trigger] rib.contains_key(k) implies exists|j: int|
            0 <= j < entries.len() && ((#[trigger] entries[j]).0, entries[j].1) == k by {
            let j = choose|j: int|
                0 <= j < peers@.len() && peer_key((#[trigger] peers@[j]).0, peers@[j].1) == k;
            assert((entries[j].0, entries[j].1) == k);
        }
        assert forall|a: int, b: int| 0 <= a < b < entries.len() implies ((#[trigger] entries[a]).0, entries[a].1)
            != ((#[trigger] entries[b]).0, entries[b].1) by {
            assert(peer_key(peers@[a].0, peers@[a].1) != peer_key(peers@[b].0, peers@[b].1));
        }
        assert forall|j: int| 0 <= j < entries.len() implies rib.contains_key(
            ((#[trigger] entries[j]).0, entries[j].1),
        ) && rib[(entries[j].0, entries[j].1)] == set_of_prefixes(entries[j].2) by {
            assert(rib.contains_key(peer_key(peers@[j].0, peers@[j].1)));
        }
        lemma_entries_stand_for_rib(entries, rib);
    }
    out
}

/// What comes of an attempt to encode: the octets, or the failure to
/// encode.
pub fn dumped(encoded: Result<Vec<u8>, bincode::error::EncodeError>) -> (r: Result<
    Vec<u8>,
    SnapshotError,
>)
    ensures
        match encoded {
            Ok(octets) => r == Ok::<Vec<u8>, SnapshotError>(octets),
            Err(_) => r == Err::<Vec<u8>, SnapshotError>(SnapshotError::Encode),
        },
{
    match encoded {
        Ok(octets) => Ok(octets),
        Err(_) => Err(SnapshotError::Encode),
    }
}

/// Dumps the view of a store. The dump succeeds, and the octets that come
/// back are the encoding of a snapshot that stands for the view.
pub fn dump_state<T: StateStore>(store: &T) -> (r: Result<Vec<u8>, SnapshotError>)
    ensures
        r matches Ok(octets) && exists|entries: Seq<PeerEntryModel>|
            rib_of_entries(entries) == store.rib() && octets@ == #[trigger] snapshot_encoding(
                entries,
            ),
{
    let entries = snapshot_entries(store);
    let encoded = encode_entries(&entries);
    let r = dumped(encoded);
    proof {
        assert(r.unwrap()@ == snapshot_encoding(entries.deep_view()));
    }
    r
}

/// What comes of an attempt to decode: a store that holds the view of the
/// snapshot where there is one, else the finding that the octets are no
/// snapshot.
pub fn restored(decoded: Result<Vec<PeerEntry>, bincode::error::DecodeError>) -> (r: Result<
    MemoryStore,
    SnapshotError,
>)
    ensures
        match decoded {
            Ok(entries) => r matches Ok(store) && store.rib() == rib_of_entries(
                entries.deep_view(),
            ),
            Err(_) => r matches Err(e) && e == SnapshotError::Malformed,
        },
{
    match decoded {
        Ok(entries) => Ok(MemoryStore::from_entries(&entries)),
        Err(_) => Err(SnapshotError::Malformed),
    }
}

/// Loads a snapshot into a fresh store. Octets that decode give a store that
/// holds the view of what they decode to; octets that do not are malformed.
/// Octets that are the encoding of a snapshot give a store that holds the
/// view of that snapshot.
pub fn load_state(octets: &[u8]) -> (r: Result<MemoryStore, SnapshotError>)
    ensures
        match snapshot_decoding(octets@) {
            Some(entries) => r matches Ok(store) && store.rib() == rib_of_entries(entries),
            None => r matches Err(e) && e == SnapshotError::Malformed,
        },
        forall|entries: Seq<PeerEntryModel>|
            octets@ == #[trigger] snapshot_encoding(entries) ==> (r matches Ok(store)
                && store.rib() == rib_of_entries(entries)),
{
    let decoded = decode_entries(octets);
    restored(decoded)
}

/// The round trip of a snapshot. Where `octets` are what a dump of the view
/// `dumped_rib` gave, every load that keeps the promise of [`load_state`]
/// succeeds with a store whose view, `loaded_rib`, is the view that was
/// dumped: the same peers with the same prefixes and times.
pub proof fn law_snapshot_round_trip(
    dumped_rib: Rib,
    octets: Seq<u8>,
    loaded: Option<Rib>,
)
    requires
        exists|entries: Seq<PeerEntryModel>|
            rib_of_entries(entries) == dumped_rib && octets == #[trigger] snapshot_encoding(
                entries,
            ),
        forall|entries: Seq<PeerEntryModel>|
            octets == #[trigger] snapshot_encoding(entries) ==> loaded == Some(
                rib_of_entries(entries),
            ),
    ensures
        loaded == Some(dumped_rib),
{
    let entries = choose|entries: Seq<PeerEntryModel>|
        rib_of_entries(entries) == dumped_rib && octets == #[trigger] snapshot_encoding(entries);
    assert(octets == snapshot_encoding(entries));
}

/// The path of the file that a dump is written to before it takes the place
/// of the snapshot: the path of the snapshot and `.tmp`.
pub open spec fn temp_path_of(path: Seq<char>) -> Seq<char> {
    path + ".tmp"@
}

/// The path that a snapshot that cannot be read is moved to: the path of the
/// snapshot, `.corrupted-` and the time in seconds since the Unix epoch.
pub open spec fn corrupted_path_of(path: Seq<char>, unix_secs: i64) -> Seq<char> {
    path + ".corrupted-"@ + decimal(unix_secs as int)
}

/// The path of the file that a dump is written to first.
pub fn temp_path(path: &str) -> (r: String)
    ensures
        r@ == temp_path_of(path@),
{
    let mut out = String::new();
    push_text(&mut out, path);
    push_text(&mut out, ".tmp");
    assert(out@ =~= temp_path_of(path@));
    out
}

/// The path that a snapshot that cannot be read is moved to.
pub fn corrupted_path(path: &str, unix_secs: i64) -> (r: String)
    ensures
        r@ == corrupted_path_of(path@, unix_secs),
{
    let mut out = String::new();
    push_text(&mut out, path);
    push_text(&mut out, ".corrupted-");
    push_decimal(&mut out, unix_secs);
    assert(out@ =~= corrupted_path_of(path@, unix_secs));
    out
}

/// What reading the snapshot file gave.
#[derive(Debug)]
pub enum ReadOutcome {
    /// There is no file.
    Missing,
    /// The file could not be read.
    Unreadable,
    /// The octets of the file.
    Octets(Vec<u8>),
}

/// What to do at startup once the snapshot file was read.
pub enum LoadAction {
    /// Begin with an empty view.
    StartEmpty,
    /// Move the file to the given path and begin with an empty view.
    SetAside(String),
    /// Begin with the view of the snapshot.
    Install(MemoryStore),
}

/// Decides how to begin once the octets of the file at `path` were decoded,
/// at the time `unix_secs`. A snapshot gives its view. Octets that did not
/// decode have the file set aside under a name that tells when.
pub fn load_decoded(
    path: &str,
    decoded: Result<Vec<PeerEntry>, bincode::error::DecodeError>,
    unix_secs: i64,
) -> (action: LoadAction)
    ensures
        match decoded {
            Ok(entries) => action matches LoadAction::Install(store) && store.rib()
                == rib_of_entries(entries.deep_view()),
            Err(_) => action matches LoadAction::SetAside(to) && to@ == corrupted_path_of(
                path@,
                unix_secs,
            ),
        },
{
    match restored(decoded) {
        Ok(store) => LoadAction::Install(store),
        Err(_) => LoadAction::SetAside(corrupted_path(path, unix_secs)),
    }
}

/// Decides how to begin, from what reading the file at `path` gave at the
/// time `unix_secs`. A missing or unreadable file means an empty view. A file
/// whose octets decode gives the view of what they decode to, and so the dump
/// of a view gives that view. A file whose octets do not decode is set aside
/// under a name that tells when.
pub fn load(path: &str, read: ReadOutcome, unix_secs: i64) -> (action: LoadAction)
    ensures
        read is Missing || read is Unreadable ==> action is StartEmpty,
        read matches ReadOutcome::Octets(octets) ==> match snapshot_decoding(octets@) {
            Some(entries) => action matches LoadAction::Install(store) && store.rib()
                == rib_of_entries(entries),
            None => action matches LoadAction::SetAside(to) && to@ == corrupted_path_of(
                path@,
                unix_secs,
            ),
        },
        read matches ReadOutcome::Octets(octets) ==> forall|entries: Seq<PeerEntryModel>|
            octets@ == #[trigger] snapshot_encoding(entries) ==> (action matches LoadAction::Install(
                store,
            ) && store.rib() == rib_of_entries(entries)),
{
    match read {
        ReadOutcome::Missing => LoadAction::StartEmpty,
        ReadOutcome::Unreadable => LoadAction::StartEmpty,
        ReadOutcome::Octets(octets) => {
            let decoded = decode_entries(octets.as_slice());
            load_decoded(path, decoded, unix_secs)
        },
    }
}

} // verus!
