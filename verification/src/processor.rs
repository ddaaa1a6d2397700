//! The dispatch of parsed BMP messages.
//!
//! Each message is classified and taken to its handler. A handler changes the
//! view of the routing information base and says what is to be emitted and
//! what is to be scheduled; sending and waiting are left to the caller.

use crate::addr::SocketAddress;
use crate::clock::now_millis;
use crate::message::{BmpMessage, BmpMessageBody, RouteMonitoring};
use crate::peer_lifecycle::{
    metadata_peer, peer_up_delay, withdraws_each_once, PEER_UP_DELAY_SECS, PEER_UP_JITTER_SECS,
};
use crate::state::{
    emitted_updates, optional_rib, prefixes_of, process_updates_at, rib_after_updates, rib_with_peer, State,
};
use crate::state_store::store::StateStore;
use crate::statistics::MessageKind;
use crate::update::{
    decode_updates_at, decoded_updates, new_metadata, optional_metadata, update_models, Update, UpdateMetadata,
    UpdateModel,
};
use vstd::prelude::*;

verus! {

/// The compensation to schedule after a peer came up: once `delay_secs`
/// seconds have passed, the prefixes of the peer that were last seen before
/// the time of scheduling are withdrawn.
#[derive(Clone, Copy, Debug, PartialEq, Eq, Structural)]
pub struct PeerUpTask {
    pub metadata: UpdateMetadata,
    pub delay_secs: u64,
}

/// What a message led to.
#[derive(Debug)]
pub struct Dispatch {
    /// The kind of the message, for the counters.
    pub kind: MessageKind,
    /// Whether the message was dropped because it needs a per-peer header
    /// and has none.
    pub dropped: bool,
    /// What the per-peer header and the connection say of the message, where
    /// it has a per-peer header.
    pub metadata: Option<UpdateMetadata>,
    /// How many records were decoded from the message, emitted or not.
    pub received: usize,
    /// The records to emit, in order.
    pub updates: Vec<Update>,
    /// The compensation to schedule, after a PeerUp.
    pub peer_up: Option<PeerUpTask>,
}

/// The kind of a message.
pub open spec fn kind_of(body: BmpMessageBody) -> MessageKind {
    match body {
        BmpMessageBody::InitiationMessage => MessageKind::Initiation,
        BmpMessageBody::PeerUpNotification => MessageKind::PeerUp,
        BmpMessageBody::RouteMonitoring(_) => MessageKind::RouteMonitoring,
        BmpMessageBody::RouteMirroring => MessageKind::RouteMirroring,
        BmpMessageBody::PeerDownNotification => MessageKind::PeerDown,
        BmpMessageBody::TerminationMessage => MessageKind::Termination,
        BmpMessageBody::StatsReport => MessageKind::StatsReport,
    }
}

/// Whether a kind of message concerns a peer and so needs a per-peer header.
pub open spec fn needs_peer(kind: MessageKind) -> bool {
    kind == MessageKind::PeerUp || kind == MessageKind::RouteMonitoring || kind
        == MessageKind::PeerDown
}

/// The kind of a message.
pub fn classify(body: &BmpMessageBody) -> (kind: MessageKind)
    ensures
        kind == kind_of(*body),
{
    match body {
        BmpMessageBody::InitiationMessage => MessageKind::Initiation,
        BmpMessageBody::PeerUpNotification => MessageKind::PeerUp,
        BmpMessageBody::RouteMonitoring(_) => MessageKind::RouteMonitoring,
        BmpMessageBody::RouteMirroring => MessageKind::RouteMirroring,
        BmpMessageBody::PeerDownNotification => MessageKind::PeerDown,
        BmpMessageBody::TerminationMessage => MessageKind::Termination,
        BmpMessageBody::StatsReport => MessageKind::StatsReport,
    }
}

/// Handles a PeerUp with a waiting time of `delay_secs` seconds. With a
/// view, the peer is made known and the compensation comes back to be
/// scheduled; without one, nothing happens.
pub fn peer_up_notification_with<T: StateStore>(
    state: &mut Option<State<T>>,
    metadata: UpdateMetadata,
    delay_secs: u64,
) -> (task: Option<PeerUpTask>)
    ensures
        match *old(state) {
            Some(before) => *final(state) matches Some(after) && after.rib() == rib_with_peer(
                before.rib(),
                metadata_peer(metadata),
            ) && task == Some(PeerUpTask { metadata, delay_secs }),
            None => *final(state) is None && task is None,
        },
{
    match state {
        Some(s) => {
            s.add_peer(&metadata.router_socket.ip, &metadata.peer_addr);
            Some(PeerUpTask { metadata, delay_secs })
        },
        None => None,
    }
}

/// Handles a PeerUp with a waiting time of 300 seconds and a jitter, left to
/// chance, of at most 60 seconds either way.
pub fn peer_up_notification<T: StateStore>(state: &mut Option<State<T>>, metadata: UpdateMetadata)
    -> (task: Option<PeerUpTask>)
    ensures
        match *old(state) {
            Some(before) => *final(state) matches Some(after) && after.rib() == rib_with_peer(
                before.rib(),
                metadata_peer(metadata),
            ) && (task matches Some(t) && t.metadata == metadata && PEER_UP_DELAY_SECS
                - PEER_UP_JITTER_SECS <= t.delay_secs <= PEER_UP_DELAY_SECS + PEER_UP_JITTER_SECS),
            None => *final(state) is None && task is None,
        },
{
    let delay_secs = peer_up_delay();
    peer_up_notification_with(state, metadata, delay_secs)
}

/// The records decoded from a message at the time `now`; none where the
/// message yields none.
pub open spec fn decoded_or_empty(body: RouteMonitoring, metadata: UpdateMetadata, now: i64) -> Seq<
    UpdateModel,
> {
    match decoded_updates(body, metadata, now) {
        Some(models) => models,
        None => Seq::empty(),
    }
}

/// Whether the records `emitted` are what comes of passing `decoded`, in
/// order and at the time `now`, through the view of `before`, and `after` is
/// what becomes of it. With a view, the records that changed it are emitted;
/// without one, all of them.
pub open spec fn passed_through<T: StateStore>(
    before: Option<State<T>>,
    after: Option<State<T>>,
    decoded: Seq<Update>,
    emitted: Seq<Update>,
    now: i64,
) -> bool {
    match before {
        Some(s) => after is Some && optional_rib(after) == rib_after_updates(s.rib(), decoded, now)
            && emitted == emitted_updates(s.rib(), decoded, now),
        None => after is None && emitted == decoded,
    }
}

/// Handles a RouteMonitoring message at the time `now` and counts: its
/// records are decoded and passed through the view. What comes back is how
/// many records were decoded, and those to emit, in the order in which they
/// were decoded. Without a view every record is to be emitted.
pub fn route_monitoring_counted_at<T: StateStore>(
    state: &mut Option<State<T>>,
    metadata: UpdateMetadata,
    body: RouteMonitoring,
    now: i64,
) -> (r: (usize, Vec<Update>))
    ensures
        r.0 == decoded_or_empty(body, metadata, now).len(),
        exists|decoded: Seq<Update>|
            passed_through(*old(state), *final(state), decoded, r.1@, now)
                && #[trigger] update_models(decoded) == decoded_or_empty(body, metadata, now),
{
    let updates: Vec<Update> = match decode_updates_at(body, metadata, now) {
        Some(decoded) => decoded,
        None => {
            let empty: Vec<Update> = Vec::new();
            assert(update_models(empty@) =~= Seq::<UpdateModel>::empty());
            empty
        },
    };
    let received = updates.len();
    let ghost decoded = updates@;
    let ghost before = *state;
    let emitted = process_updates_at(state, updates, now);
    assert(update_models(decoded).len() == decoded.len());
    assert(passed_through(before, *state, decoded, emitted@, now));
    (received, emitted)
}

/// Handles a RouteMonitoring message at the time `now`: its records are
/// decoded and passed through the view, and those to emit come back, in the
/// order in which they were decoded. Without a view every record comes back.
pub fn route_monitoring_at<T: StateStore>(
    state: &mut Option<State<T>>,
    metadata: UpdateMetadata,
    body: RouteMonitoring,
    now: i64,
) -> (r: Vec<Update>)
    ensures
        exists|decoded: Seq<Update>|
            passed_through(*old(state), *final(state), decoded, r@, now)
                && #[trigger] update_models(decoded) == decoded_or_empty(body, metadata, now),
{
    let ghost before = *state;
    let counted = route_monitoring_counted_at(state, metadata, body, now);
    proof {
        let decoded = choose|decoded: Seq<Update>|
            passed_through(before, *state, decoded, counted.1@, now) && #[trigger] update_models(
                decoded,
            ) == decoded_or_empty(body, metadata, now);
        assert(update_models(decoded) == decoded_or_empty(body, metadata, now));
    }
    counted.1
}

/// Handles a RouteMonitoring message at the current time.
pub fn route_monitoring<T: StateStore>(
    state: &mut Option<State<T>>,
    metadata: UpdateMetadata,
    body: RouteMonitoring,
) -> (r: Vec<Update>)
    ensures
        exists|decoded: Seq<Update>, now: i64| #[trigger]
            passed_through(*old(state), *final(state), decoded, r@, now) && update_models(decoded)
                == decoded_or_empty(body, metadata, now),
{
    let now = now_millis();
    let ghost before = *state;
    let r = route_monitoring_at(state, metadata, body, now);
    proof {
        let decoded = choose|decoded: Seq<Update>|
            passed_through(before, *state, decoded, r@, now) && #[trigger] update_models(decoded)
                == decoded_or_empty(body, metadata, now);
        assert(passed_through(before, *state, decoded, r@, now));
    }
    r
}

/// Handles a PeerDown at the time `now`. With a view, every prefix of the
/// peer is withdrawn on its behalf, exactly once, and the peer is forgotten;
/// without one, nothing happens.
pub fn peer_down_notification_at<T: StateStore>(
    state: &mut Option<State<T>>,
    metadata: UpdateMetadata,
    now: i64,
) -> (r: Vec<Update>)
    ensures
        match *old(state) {
            Some(before) => *final(state) matches Some(after) && after.rib() == before.rib().remove(
                metadata_peer(metadata),
            ) && withdraws_each_once(
                update_models(r@),
                prefixes_of(before.rib(), metadata_peer(metadata)).dom(),
                metadata,
                now,
            ),
            None => *final(state) is None && r@.len() == 0,
        },
{
    match state {
        Some(s) => s.synthesize_and_remove_at(metadata, now),
        None => Vec::new(),
    }
}

/// Handles a PeerDown at the current time.
pub fn peer_down_notification<T: StateStore>(state: &mut Option<State<T>>, metadata: UpdateMetadata)
    -> (r: Vec<Update>)
    ensures
        match *old(state) {
            Some(before) => *final(state) matches Some(after) && after.rib() == before.rib().remove(
                metadata_peer(metadata),
            ) && exists|now: i64| #[trigger]
                withdraws_each_once(
                    update_models(r@),
                    prefixes_of(before.rib(), metadata_peer(metadata)).dom(),
                    metadata,
                    now,
                ),
            None => *final(state) is None && r@.len() == 0,
        },
{
    let now = now_millis();
    peer_down_notification_at(state, metadata, now)
}

/// How many records are decoded at the time `now` from a message of which
/// the per-peer header and the connection say `metadata`: those of a
/// RouteMonitoring message with a per-peer header, and none of any other.
pub open spec fn received_of(message: BmpMessage, metadata: Option<UpdateMetadata>, now: i64) -> nat {
    match (message.message_body, metadata) {
        (BmpMessageBody::RouteMonitoring(body), Some(m)) => decoded_or_empty(body, m, now).len(),
        _ => 0,
    }
}

/// Whether `d` and `after` are what comes of the message `message` of the
/// connection `socket`, taken at the time `now` to the view of `before`, with
/// `delay_secs` seconds of waiting should a peer come up.
///
/// A message that concerns no peer changes nothing. A message that concerns
/// a peer and has no per-peer header is dropped. A PeerUp makes the peer
/// known and schedules the compensation. A RouteMonitoring passes its records
/// through the view and emits those that changed it; the records that were
/// decoded from it are counted. A PeerDown withdraws every prefix of the peer
/// once and forgets the peer.
pub open spec fn dispatched<T: StateStore>(
    before: Option<State<T>>,
    after: Option<State<T>>,
    socket: SocketAddress,
    message: BmpMessage,
    now: i64,
    delay_secs: u64,
    d: Dispatch,
) -> bool {
    let metadata = optional_metadata(socket, message.per_peer_header);
    &&& d.kind == kind_of(message.message_body)
    &&& d.dropped == (needs_peer(d.kind) && metadata is None)
    &&& d.metadata == metadata
    &&& d.received == received_of(message, metadata, now)
    &&& if !needs_peer(d.kind) || metadata is None {
        after == before && d.updates@.len() == 0 && d.peer_up is None
    } else {
        let m = metadata.unwrap();
        match message.message_body {
            BmpMessageBody::PeerUpNotification => {
                &&& d.updates@.len() == 0
                &&& match before {
                    Some(s) => after is Some && optional_rib(after) == rib_with_peer(
                        s.rib(),
                        metadata_peer(m),
                    ) && d.peer_up == Some(PeerUpTask { metadata: m, delay_secs }),
                    None => after is None && d.peer_up is None,
                }
            },
            BmpMessageBody::RouteMonitoring(body) => {
                &&& d.peer_up is None
                &&& exists|decoded: Seq<Update>|
                    passed_through(before, after, decoded, d.updates@, now)
                        && #[trigger] update_models(decoded) == decoded_or_empty(body, m, now)
            },
            BmpMessageBody::PeerDownNotification => {
                &&& d.peer_up is None
                &&& match before {
                    Some(s) => after is Some && optional_rib(after) == s.rib().remove(
                        metadata_peer(m),
                    ) && withdraws_each_once(
                        update_models(d.updates@),
                        prefixes_of(s.rib(), metadata_peer(m)).dom(),
                        m,
                        now,
                    ),
                    None => after is None && d.updates@.len() == 0,
                }
            },
            _ => true,
        }
    }
}

/// Takes a parsed message of the connection `socket` to its handler, at the
/// time `now` and with `delay_secs` seconds of waiting should a peer come up.
pub fn process_bmp_message_at<T: StateStore>(
    state: &mut Option<State<T>>,
    socket: SocketAddress,
    message: BmpMessage,
    now: i64,
    delay_secs: u64,
) -> (d: Dispatch)
    ensures
        dispatched(*old(state), *final(state), socket, message, now, delay_secs, d),
{
    let kind = classify(&message.message_body);
    let metadata = new_metadata(socket, &message);
    let ghost before = *state;
    let none: Vec<Update> = Vec::new();
    match message.message_body {
        BmpMessageBody::PeerUpNotification => match metadata {
            Some(m) => {
                let task = peer_up_notification_with(state, m, delay_secs);
                Dispatch { kind, dropped: false, metadata, received: 0, updates: none, peer_up: task }
            },
            None => Dispatch { kind, dropped: true, metadata, received: 0, updates: none, peer_up: None },
        },
        BmpMessageBody::RouteMonitoring(body) => match metadata {
            Some(m) => {
                let counted = route_monitoring_counted_at(state, m, body, now);
                Dispatch {
                    kind,
                    dropped: false,
                    metadata,
                    received: counted.0,
                    updates: counted.1,
                    peer_up: None,
                }
            },
            None => Dispatch { kind, dropped: true, metadata, received: 0, updates: none, peer_up: None },
        },
        BmpMessageBody::PeerDownNotification => match metadata {
            Some(m) => {
                let updates = peer_down_notification_at(state, m, now);
                Dispatch { kind, dropped: false, metadata, received: 0, updates, peer_up: None }
            },
            None => Dispatch { kind, dropped: true, metadata, received: 0, updates: none, peer_up: None },
        },
        _ => Dispatch { kind, dropped: false, metadata, received: 0, updates: none, peer_up: None },
    }
}

/// Takes a parsed message of the connection `socket` to its handler, at the
/// current time and with a waiting time of 300 seconds and a jitter, left to
/// chance, of at most 60 seconds either way.
pub fn process_bmp_message<T: StateStore>(
    state: &mut Option<State<T>>,
    socket: SocketAddress,
    message: BmpMessage,
) -> (d: Dispatch)
    ensures
        exists|now: i64, delay_secs: u64|
            PEER_UP_DELAY_SECS - PEER_UP_JITTER_SECS <= delay_secs <= PEER_UP_DELAY_SECS
                + PEER_UP_JITTER_SECS && #[trigger] dispatched(
                *old(state),
                *final(state),
                socket,
                message,
                now,
                delay_secs,
                d,
            ),
{
    let now = now_millis();
    let delay_secs = peer_up_delay();
    process_bmp_message_at(state, socket, message, now, delay_secs)
}

} // verus!
