use risotto::addr::{IpAddress, SocketAddress};
use risotto::message::{
    Attributes, BgpMessage, BgpUpdateMessage, BmpMessage, BmpMessageBody, NetworkPrefix,
    PerPeerFlags, PerPeerHeader, RouteMonitoring,
};
use risotto::peer_lifecycle::{
    peer_up_delay, peer_up_delay_with, stale_prefixes, stale_withdraws_at,
    synthesize_withdraws_at,
};
use risotto::processor::{
    classify, peer_down_notification, peer_down_notification_at, peer_up_notification,
    peer_up_notification_with, process_bmp_message, process_bmp_message_at, route_monitoring,
    route_monitoring_at, route_monitoring_counted_at, PeerUpTask,
};
use risotto::state::{
    process_update, process_updates, process_updates_at, synthesize_withdraw_update,
    synthesize_withdraw_update_at, State, TimedPrefix,
};
use risotto::state_store::memory::MemoryStore;
use risotto::state_store::store::StateStore;
use risotto::statistics::MessageKind;
use risotto::update::{decode_updates_at, Update, UpdateMetadata};

fn socket() -> SocketAddress {
    SocketAddress { ip: IpAddress::v4(10, 0, 0, 1), port: 4000 }
}

fn header() -> PerPeerHeader {
    PerPeerHeader {
        peer_flags: PerPeerFlags::PeerFlags { is_post_policy: false, is_adj_rib_out: false },
        peer_ip: IpAddress::v4(192, 0, 2, 1),
        peer_asn: 65000,
        peer_bgp_id: 0xc000_0201,
        timestamp_millis: 1000,
    }
}

fn metadata() -> UpdateMetadata {
    UpdateMetadata {
        time_bmp_header_ns: 1000,
        router_socket: socket(),
        peer_addr: IpAddress::v4(192, 0, 2, 1),
        peer_bgp_id: 0xc000_0201,
        peer_asn: 65000,
        is_post_policy: false,
        is_adj_rib_out: false,
    }
}

fn net(third: u8) -> NetworkPrefix {
    NetworkPrefix { addr: IpAddress::v4(10, 0, third, 0), len: 24 }
}

fn mapped(third: u8) -> IpAddress {
    IpAddress::V6(0xffff_0a00_0000 + ((third as u128) << 8))
}

fn body(announced: Vec<NetworkPrefix>, withdrawn: Vec<NetworkPrefix>) -> RouteMonitoring {
    RouteMonitoring {
        bgp_message: BgpMessage::Update(BgpUpdateMessage {
            announced_prefixes: announced,
            withdrawn_prefixes: withdrawn,
            attributes: Attributes::empty(),
        }),
    }
}

fn monitoring(announced: Vec<NetworkPrefix>, withdrawn: Vec<NetworkPrefix>) -> BmpMessage {
    BmpMessage {
        per_peer_header: Some(header()),
        message_body: BmpMessageBody::RouteMonitoring(body(announced, withdrawn)),
    }
}

fn with(body: BmpMessageBody) -> BmpMessage {
    BmpMessage { per_peer_header: Some(header()), message_body: body }
}

fn fresh() -> Option<State<MemoryStore>> {
    Some(State::new(MemoryStore::new()))
}

fn announce(third: u8, now: i64) -> Update {
    decode_updates_at(body(vec![net(third)], vec![]), metadata(), now).unwrap().remove(0)
}

fn withdraw(third: u8, now: i64) -> Update {
    decode_updates_at(body(vec![], vec![net(third)]), metadata(), now).unwrap().remove(0)
}

fn keys(prefixes: &[TimedPrefix]) -> Vec<(IpAddress, u8, i64)> {
    let mut v: Vec<(IpAddress, u8, i64)> =
        prefixes.iter().map(|p| (p.prefix_addr, p.prefix_len, p.timestamp)).collect();
    v.sort_by_key(|k| (k.1, k.2, format!("{:?}", k.0)));
    v
}

#[test]
fn novel_announce_is_emitted() {
    let mut state = fresh();
    let d = process_bmp_message_at(&mut state, socket(), monitoring(vec![net(1)], vec![]), 5, 300);
    assert_eq!(d.kind, MessageKind::RouteMonitoring);
    assert!(!d.dropped);
    assert!(d.peer_up.is_none());
    assert_eq!(d.updates.len(), 1);
    let u = &d.updates[0];
    assert!(u.announced);
    assert_eq!(u.prefix_addr, IpAddress::V6(0xffff_0a00_0100));
    assert_eq!(u.prefix_len, 24);
    assert!(!u.synthetic);
    assert_eq!(u.router_addr, IpAddress::V6(0xffff_0a00_0001));
    assert_eq!(u.router_port, 4000);
    assert_eq!(u.peer_addr, IpAddress::V6(0xffff_c000_0201));
    assert_eq!(u.peer_asn, 65000);
    assert_eq!(u.peer_bgp_id, 0xc000_0201);
}

#[test]
fn duplicate_announce_is_suppressed() {
    let mut state = fresh();
    let first =
        process_bmp_message_at(&mut state, socket(), monitoring(vec![net(1)], vec![]), 5, 300);
    let second =
        process_bmp_message_at(&mut state, socket(), monitoring(vec![net(1)], vec![]), 6, 300);
    assert_eq!(first.updates.len(), 1);
    assert!(second.updates.is_empty());
    let held = state.as_ref().unwrap().get_updates_by_peer(&socket().ip, &header().peer_ip);
    assert_eq!(keys(&held), vec![(mapped(1), 24, 6)]);
}

#[test]
fn announce_then_withdraw_emits_both() {
    let mut state = fresh();
    let first =
        process_bmp_message_at(&mut state, socket(), monitoring(vec![net(1)], vec![]), 5, 300);
    let second =
        process_bmp_message_at(&mut state, socket(), monitoring(vec![], vec![net(1)]), 6, 300);
    assert_eq!(first.updates.len(), 1);
    assert_eq!(second.updates.len(), 1);
    assert!(!second.updates[0].announced);
    assert!(!second.updates[0].synthetic);
    let third =
        process_bmp_message_at(&mut state, socket(), monitoring(vec![], vec![net(1)]), 7, 300);
    assert!(third.updates.is_empty());
    let held = state.as_ref().unwrap().get_updates_by_peer(&socket().ip, &header().peer_ip);
    assert!(held.is_empty());
}

#[test]
fn withdraw_of_absent_prefix_is_suppressed() {
    let mut state = fresh();
    let d = process_bmp_message_at(&mut state, socket(), monitoring(vec![], vec![net(9)]), 5, 300);
    assert!(d.updates.is_empty());
}

#[test]
fn emits_equal_membership_transitions() {
    let mut state = fresh();
    let run = vec![true, true, false, false, true, false, true, true, true, false];
    let updates: Vec<Update> = run
        .iter()
        .enumerate()
        .map(|(i, a)| if *a { announce(1, i as i64) } else { withdraw(1, i as i64) })
        .collect();
    let emitted = process_updates_at(&mut state, updates, 50);
    let seen: Vec<bool> = emitted.iter().map(|u| u.announced).collect();
    assert_eq!(seen, vec![true, false, true, false, true, false]);
    assert!(state.as_ref().unwrap().get_updates_by_peer(&socket().ip, &header().peer_ip).is_empty());
}

#[test]
fn prefixes_are_told_apart_by_length_stage_and_direction() {
    let mut state = State::new(MemoryStore::new());
    let base = announce(1, 0);
    let mut longer = base.clone();
    longer.prefix_len = 25;
    let mut post = base.clone();
    post.is_post_policy = true;
    let mut out = base.clone();
    out.is_adj_rib_out = true;
    let router = base.router_addr;
    let peer = base.peer_addr;
    assert!(state.update_at(&router, &peer, &base, 1));
    assert!(state.update_at(&router, &peer, &longer, 2));
    assert!(state.update_at(&router, &peer, &post, 3));
    assert!(state.update_at(&router, &peer, &out, 4));
    assert!(!state.update_at(&router, &peer, &base, 5));
    let held = state.get_updates_by_peer(&router, &peer);
    assert_eq!(held.len(), 4);
    let mut stamps: Vec<(u8, bool, bool, i64)> = held
        .iter()
        .map(|p| (p.prefix_len, p.is_post_policy, p.is_adj_rib_out, p.timestamp))
        .collect();
    stamps.sort();
    assert_eq!(
        stamps,
        vec![(24, false, false, 5), (24, false, true, 4), (24, true, false, 3), (25, false, false, 2)]
    );
}

#[test]
fn peers_are_independent() {
    let mut store = MemoryStore::new();
    let u = announce(1, 0);
    let r1 = IpAddress::v4(10, 0, 0, 1);
    let r2 = IpAddress::v4(10, 0, 0, 2);
    let p1 = IpAddress::v4(192, 0, 2, 1);
    let p2 = IpAddress::v4(192, 0, 2, 2);
    assert!(store.update_at(&r1, &p1, &u, 1));
    assert!(store.update_at(&r1, &p2, &u, 2));
    assert!(store.update_at(&r2, &p1, &u, 3));
    assert!(!store.update_at(&r1, &p1, &u, 4));
    let mut peers = store.get_peers();
    peers.sort_by_key(|p| format!("{:?}", p));
    assert_eq!(peers.len(), 3);
    store.remove_peer(&r1, &p1);
    assert!(store.get_updates_by_peer(&r1, &p1).is_empty());
    assert_eq!(store.get_updates_by_peer(&r1, &p2).len(), 1);
    assert_eq!(store.get_updates_by_peer(&r2, &p1).len(), 1);
    assert_eq!(store.get_peers().len(), 2);
}

#[test]
fn ipv4_and_its_mapped_form_name_the_same_peer() {
    let mut store = MemoryStore::new();
    let u = announce(1, 0);
    assert!(store.update_at(&IpAddress::v4(10, 0, 0, 1), &IpAddress::v4(192, 0, 2, 1), &u, 1));
    assert!(!store.update_at(
        &IpAddress::V6(0xffff_0a00_0001),
        &IpAddress::V6(0xffff_c000_0201),
        &u,
        2
    ));
    let peers = store.get_peers();
    assert_eq!(peers, vec![(IpAddress::V6(0xffff_0a00_0001), IpAddress::V6(0xffff_c000_0201))]);
}

#[test]
fn add_peer_is_idempotent_and_keeps_prefixes() {
    let mut store = MemoryStore::new();
    let r = IpAddress::v4(10, 0, 0, 1);
    let p = IpAddress::v4(192, 0, 2, 1);
    store.add_peer(&r, &p);
    store.add_peer(&r, &p);
    assert_eq!(store.get_peers().len(), 1);
    assert!(store.get_updates_by_peer(&r, &p).is_empty());
    assert!(store.update_at(&r, &p, &announce(1, 0), 1));
    store.add_peer(&r, &p);
    assert_eq!(store.get_updates_by_peer(&r, &p).len(), 1);
    assert_eq!(store.get_peers().len(), 1);
}

#[test]
fn without_a_view_everything_is_forwarded() {
    let mut state: Option<State<MemoryStore>> = None;
    let updates = vec![announce(1, 0), announce(1, 1), withdraw(2, 2)];
    let emitted = process_updates(&mut state, updates);
    assert_eq!(emitted.len(), 3);
    assert_eq!(process_update(&mut state, announce(1, 3)).len(), 1);
    assert!(state.is_none());
    let d = process_bmp_message(&mut state, socket(), monitoring(vec![net(1)], vec![]));
    assert_eq!(d.updates.len(), 1);
    let d = process_bmp_message(&mut state, socket(), monitoring(vec![net(1)], vec![]));
    assert_eq!(d.updates.len(), 1);
    assert!(route_monitoring(&mut state, metadata(), body(vec![net(1)], vec![])).len() == 1);
}

#[test]
fn clocked_processing_applies_the_same_rule() {
    let mut state = fresh();
    assert_eq!(process_update(&mut state, announce(1, 0)).len(), 1);
    assert_eq!(process_update(&mut state, announce(1, 0)).len(), 0);
    assert_eq!(process_updates(&mut state, vec![withdraw(1, 0), withdraw(1, 0)]).len(), 1);
    assert_eq!(route_monitoring(&mut state, metadata(), body(vec![net(3)], vec![])).len(), 1);
    assert_eq!(route_monitoring_at(&mut state, metadata(), body(vec![net(3)], vec![]), 9).len(), 0);
    let s = state.as_mut().unwrap();
    let u = announce(4, 0);
    assert!(s.update(&u.router_addr, &u.peer_addr, &u));
    assert!(!s.update(&u.router_addr, &u.peer_addr, &u));
}

fn edge_metadata() -> UpdateMetadata {
    UpdateMetadata {
        time_bmp_header_ns: 0,
        router_socket: SocketAddress { ip: IpAddress::v4(192, 0, 1, 0), port: 179 },
        peer_addr: IpAddress::v4(192, 0, 2, 0),
        peer_bgp_id: 0xc000_0200,
        peer_asn: 65000,
        is_post_policy: false,
        is_adj_rib_out: false,
    }
}

fn edge_message(message_body: BmpMessageBody) -> BmpMessage {
    BmpMessage {
        per_peer_header: Some(PerPeerHeader {
            peer_flags: PerPeerFlags::PeerFlags { is_post_policy: false, is_adj_rib_out: false },
            peer_ip: IpAddress::v4(192, 0, 2, 0),
            peer_asn: 65000,
            peer_bgp_id: 0xc000_0200,
            timestamp_millis: 0,
        }),
        message_body,
    }
}

#[test]
fn test_peer_up_notification() {
    let mut state = fresh();
    let task = peer_up_notification(&mut state, edge_metadata());
    let task = task.unwrap();
    assert_eq!(task.metadata, edge_metadata());
    assert!(240 <= task.delay_secs && task.delay_secs <= 360);
    let s = state.as_ref().unwrap();
    assert_eq!(
        s.store.get_peers(),
        vec![(IpAddress::V6(0xffff_c000_0100), IpAddress::V6(0xffff_c000_0200))]
    );
    assert!(s
        .get_updates_by_peer(&IpAddress::v4(192, 0, 1, 0), &IpAddress::v4(192, 0, 2, 0))
        .is_empty());

    let mut state = fresh();
    let d = process_bmp_message(
        &mut state,
        edge_metadata().router_socket,
        edge_message(BmpMessageBody::PeerUpNotification),
    );
    assert!(d.updates.is_empty());
    assert_eq!(d.received, 0);
    assert_eq!(d.peer_up.unwrap().metadata, edge_metadata());
}

#[test]
fn peer_up_schedules_compensation_with_the_given_delay() {
    let mut state = fresh();
    let d = process_bmp_message_at(
        &mut state,
        socket(),
        with(BmpMessageBody::PeerUpNotification),
        5,
        321,
    );
    assert_eq!(d.kind, MessageKind::PeerUp);
    assert!(d.updates.is_empty());
    assert_eq!(d.peer_up, Some(PeerUpTask { metadata: metadata(), delay_secs: 321 }));
    let mut none: Option<State<MemoryStore>> = None;
    assert_eq!(peer_up_notification_with(&mut none, metadata(), 300), None);
    assert_eq!(peer_up_notification(&mut none, metadata()), None);
}

#[test]
fn delay_is_three_hundred_seconds_and_jitter() {
    assert_eq!(peer_up_delay_with(0), 300);
    assert_eq!(peer_up_delay_with(-60), 240);
    assert_eq!(peer_up_delay_with(60), 360);
    for _ in 0..200 {
        let d = peer_up_delay();
        assert!(240 <= d && d <= 360);
    }
}

#[test]
fn test_peer_down_notification() {
    let mut state = fresh();
    let emitted = peer_down_notification(&mut state, edge_metadata());
    assert!(emitted.is_empty());
    assert!(state.as_ref().unwrap().store.get_peers().is_empty());

    let mut state = fresh();
    let d = process_bmp_message(
        &mut state,
        edge_metadata().router_socket,
        edge_message(BmpMessageBody::PeerDownNotification),
    );
    assert!(d.updates.is_empty());
    assert_eq!(d.metadata, Some(edge_metadata()));
    assert!(d.peer_up.is_none());
}

#[test]
fn peer_down_withdraws_every_prefix_once() {
    let mut state = fresh();
    let a = process_bmp_message_at(
        &mut state,
        socket(),
        monitoring(vec![net(1), net(2)], vec![]),
        5,
        300,
    );
    assert_eq!(a.updates.len(), 2);
    let d = process_bmp_message_at(
        &mut state,
        socket(),
        with(BmpMessageBody::PeerDownNotification),
        9,
        300,
    );
    assert_eq!(d.kind, MessageKind::PeerDown);
    assert_eq!(d.updates.len(), 2);
    let mut seen: Vec<IpAddress> = Vec::new();
    for u in &d.updates {
        assert!(u.synthetic);
        assert!(!u.announced);
        assert_eq!(u.origin, "INCOMPLETE");
        assert!(u.as_path.is_empty());
        assert!(u.communities.is_empty());
        assert!(u.extended_communities.is_empty());
        assert!(u.large_communities.is_empty());
        assert_eq!(u.next_hop, None);
        assert_eq!(u.prefix_len, 24);
        assert_eq!(u.time_received_ns, 9);
        assert_eq!(u.time_bmp_header_ns, 9);
        assert_eq!(u.router_addr, IpAddress::V6(0xffff_0a00_0001));
        assert_eq!(u.router_port, 4000);
        assert_eq!(u.peer_addr, IpAddress::V6(0xffff_c000_0201));
        assert_eq!(u.peer_asn, 65000);
        seen.push(u.prefix_addr);
    }
    seen.sort_by_key(|a| format!("{:?}", a));
    assert_eq!(seen, vec![mapped(1), mapped(2)]);
    assert!(state.as_ref().unwrap().store.get_peers().is_empty());
    let again = peer_down_notification_at(&mut state, metadata(), 10);
    assert!(again.is_empty());
    let mut none: Option<State<MemoryStore>> = None;
    assert!(peer_down_notification_at(&mut none, metadata(), 10).is_empty());
}

#[test]
fn synthetic_withdraw_keeps_prefix_stage_and_direction() {
    let p = TimedPrefix {
        prefix_addr: IpAddress::v4(10, 0, 1, 0),
        prefix_len: 24,
        is_post_policy: true,
        is_adj_rib_out: true,
        timestamp: 3,
    };
    let u = synthesize_withdraw_update_at(p, metadata(), 77);
    assert_eq!(u.prefix_addr, mapped(1));
    assert_eq!(u.prefix_len, 24);
    assert!(u.is_post_policy);
    assert!(u.is_adj_rib_out);
    assert!(u.synthetic);
    assert!(!u.announced);
    assert_eq!(u.time_received_ns, 77);
    assert_eq!(u.origin, "INCOMPLETE");
    let v = synthesize_withdraw_update(p, metadata());
    assert_eq!(v.prefix_addr, mapped(1));
    assert!(v.synthetic);
    assert!(!v.announced);
    assert_eq!(v.time_received_ns, v.time_bmp_header_ns);
}

#[test]
fn timed_prefixes_are_equal_whatever_their_time() {
    let p = TimedPrefix {
        prefix_addr: mapped(1),
        prefix_len: 24,
        is_post_policy: false,
        is_adj_rib_out: false,
        timestamp: 3,
    };
    let mut q = p;
    q.timestamp = 99;
    assert!(p == q);
    q.prefix_len = 25;
    assert!(p != q);
}

#[test]
fn stale_prefixes_are_those_seen_before_startup() {
    let at = |third: u8, timestamp: i64| TimedPrefix {
        prefix_addr: mapped(third),
        prefix_len: 24,
        is_post_policy: false,
        is_adj_rib_out: false,
        timestamp,
    };
    let all = vec![at(1, 4999), at(2, 5000), at(3, 5001), at(4, 0)];
    let stale = stale_prefixes(&all, 5000);
    assert_eq!(keys(&stale), vec![(mapped(4), 24, 0), (mapped(1), 24, 4999)]);
    let withdraws = stale_withdraws_at(&all, metadata(), 5000, 9000);
    let seen: Vec<IpAddress> = withdraws.iter().map(|u| u.prefix_addr).collect();
    assert_eq!(seen, vec![mapped(1), mapped(4)]);
    assert_eq!(synthesize_withdraws_at(&all, metadata(), 1).len(), 4);
}

#[test]
fn peer_up_compensation_withdraws_only_what_was_not_announced_again() {
    let router = IpAddress::v4(10, 0, 0, 1);
    let peer = IpAddress::v4(192, 0, 2, 1);
    let store = MemoryStore::from_entries(&vec![(
        0xffff_0a00_0001,
        0xffff_c000_0201,
        vec![
            (0xffff_0a00_0100, 24, false, false, 1000),
            (0xffff_0a00_0200, 24, false, false, 1000),
        ],
    )]);
    let mut state = Some(State::new(store));
    let startup = 5000;
    let up = process_bmp_message_at(
        &mut state,
        socket(),
        with(BmpMessageBody::PeerUpNotification),
        startup,
        300,
    );
    assert!(up.updates.is_empty());
    assert!(up.peer_up.is_some());
    let again =
        process_bmp_message_at(&mut state, socket(), monitoring(vec![net(1)], vec![]), 6000, 300);
    assert!(again.updates.is_empty());
    let fire = 5000 + 300_000;
    let s = state.as_mut().unwrap();
    let held = s.get_updates_by_peer(&router, &peer);
    let withdraws = stale_withdraws_at(&held, up.peer_up.unwrap().metadata, startup, fire);
    assert_eq!(withdraws.len(), 1);
    assert_eq!(withdraws[0].prefix_addr, mapped(2));
    assert_eq!(withdraws[0].prefix_len, 24);
    assert!(withdraws[0].synthetic);
    assert!(!withdraws[0].announced);
    s.apply_updates_at(&withdraws, fire);
    let left = s.get_updates_by_peer(&router, &peer);
    assert_eq!(keys(&left), vec![(mapped(1), 24, 6000)]);
    let later =
        process_bmp_message_at(&mut state, socket(), monitoring(vec![], vec![net(2)]), fire, 300);
    assert!(later.updates.is_empty());
}

#[test]
fn messages_without_a_peer_change_nothing() {
    for (body, kind) in [
        (BmpMessageBody::InitiationMessage, MessageKind::Initiation),
        (BmpMessageBody::TerminationMessage, MessageKind::Termination),
        (BmpMessageBody::StatsReport, MessageKind::StatsReport),
        (BmpMessageBody::RouteMirroring, MessageKind::RouteMirroring),
    ] {
        assert_eq!(classify(&body), kind);
        let mut state = fresh();
        let message = BmpMessage { per_peer_header: None, message_body: body };
        let d = process_bmp_message_at(&mut state, socket(), message, 1, 300);
        assert_eq!(d.kind, kind);
        assert!(!d.dropped);
        assert!(d.updates.is_empty());
        assert!(d.peer_up.is_none());
        assert!(state.as_ref().unwrap().store.get_peers().is_empty());
    }
}

#[test]
fn messages_that_need_a_peer_are_dropped_without_one() {
    for body in [
        BmpMessageBody::PeerUpNotification,
        BmpMessageBody::PeerDownNotification,
        BmpMessageBody::RouteMonitoring(body(vec![net(1)], vec![])),
    ] {
        let mut state = fresh();
        let message = BmpMessage { per_peer_header: None, message_body: body };
        let d = process_bmp_message_at(&mut state, socket(), message, 1, 300);
        assert!(d.dropped);
        assert!(d.updates.is_empty());
        assert!(d.peer_up.is_none());
        assert!(state.as_ref().unwrap().store.get_peers().is_empty());
    }
}

#[test]
fn get_all_lists_every_prefix_of_every_peer_once() {
    let store = MemoryStore::from_entries(&vec![
        (1, 2, vec![(10, 8, false, false, 1), (11, 8, false, false, 2)]),
        (1, 3, vec![]),
        (4, 2, vec![(10, 8, false, false, 3)]),
    ]);
    let state = State::new(store);
    let mut all: Vec<(IpAddress, IpAddress, u128, i64)> = state
        .get_all()
        .iter()
        .map(|(r, p, t)| (*r, *p, t.prefix_addr.to_bits(), t.timestamp))
        .collect();
    all.sort_by_key(|e| e.3);
    assert_eq!(
        all,
        vec![
            (IpAddress::V6(1), IpAddress::V6(2), 10, 1),
            (IpAddress::V6(1), IpAddress::V6(2), 11, 2),
            (IpAddress::V6(4), IpAddress::V6(2), 10, 3),
        ]
    );
    assert!(State::new(MemoryStore::new()).get_all().is_empty());
}

#[test]
fn decoded_records_are_counted_whether_emitted_or_not() {
    let mut state = fresh();
    let d = process_bmp_message_at(
        &mut state,
        socket(),
        monitoring(vec![net(1), net(2)], vec![net(3)]),
        5,
        300,
    );
    assert_eq!(d.metadata, Some(metadata()));
    assert_eq!(d.received, 3);
    assert_eq!(d.updates.len(), 2);
    let d = process_bmp_message_at(
        &mut state,
        socket(),
        monitoring(vec![net(1), net(2)], vec![]),
        6,
        300,
    );
    assert_eq!(d.received, 2);
    assert!(d.updates.is_empty());

    let mut none: Option<State<MemoryStore>> = None;
    let d = process_bmp_message_at(&mut none, socket(), monitoring(vec![net(1)], vec![net(3)]), 7, 300);
    assert_eq!(d.received, 2);
    assert_eq!(d.updates.len(), 2);

    let mut state = fresh();
    let counted = route_monitoring_counted_at(&mut state, metadata(), body(vec![net(4)], vec![net(5)]), 8);
    assert_eq!(counted.0, 2);
    assert_eq!(counted.1.len(), 1);
    assert_eq!(counted.1[0].prefix_addr, mapped(4));

    let headless = BmpMessage {
        per_peer_header: None,
        message_body: BmpMessageBody::RouteMonitoring(body(vec![net(1)], vec![])),
    };
    let d = process_bmp_message_at(&mut state, socket(), headless, 9, 300);
    assert!(d.dropped);
    assert_eq!(d.metadata, None);
    assert_eq!(d.received, 0);
}
