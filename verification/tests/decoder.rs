use bgpkit_parser::models::{AsPath, AsPathSegment as ParsedSegment};
use risotto::addr::{IpAddress, SocketAddress};
use risotto::clock::{choose_header_time, header_time};
use risotto::message::{
    Afi, AsPathSegment, Attributes, BgpMessage, BgpUpdateMessage, BmpMessage, BmpMessageBody,
    Community, ExtendedCommunity, ExtendedCommunityType, Ipv6AddrExtCommunity, LargeCommunity,
    MetaCommunity, NetworkPrefix, Nlri, Origin, PerPeerFlags, PerPeerHeader, RouteMonitoring, Safi,
};
use risotto::processor::{route_monitoring, route_monitoring_at};
use risotto::state::State;
use risotto::state_store::memory::MemoryStore;
use risotto::update::{
    afi_number, decode_updates, decode_updates_at, extended_community_triple,
    extract_extended_communities, extract_large_communities, flatten_segments,
    ipv6_extended_community_triple, new_communities, new_metadata, new_path, origin_name,
    safi_number, Update, UpdateMetadata,
};

fn metadata() -> UpdateMetadata {
    UpdateMetadata {
        time_bmp_header_ns: 0,
        router_socket: SocketAddress { ip: IpAddress::v4(192, 0, 1, 0), port: 179 },
        peer_addr: IpAddress::v4(192, 0, 2, 0),
        peer_bgp_id: 0xc000_0200,
        peer_asn: 65000,
        is_post_policy: false,
        is_adj_rib_out: false,
    }
}

fn prefix(a: u8, b: u8, c: u8, d: u8, len: u8) -> NetworkPrefix {
    NetworkPrefix { addr: IpAddress::v4(a, b, c, d), len }
}

fn update_message(announced: Vec<NetworkPrefix>, withdrawn: Vec<NetworkPrefix>) -> RouteMonitoring {
    RouteMonitoring {
        bgp_message: BgpMessage::Update(BgpUpdateMessage {
            announced_prefixes: announced,
            withdrawn_prefixes: withdrawn,
            attributes: Attributes::empty(),
        }),
    }
}

#[test]
fn test_route_monitoring() {
    let body = update_message(vec![prefix(10, 0, 1, 0, 24)], vec![]);
    let expects = vec![Update {
        time_received_ns: 0,
        time_bmp_header_ns: 0,
        router_addr: IpAddress::V6(0xffff_c000_0100),
        router_port: 179,
        peer_addr: IpAddress::V6(0xffff_c000_0200),
        peer_bgp_id: 0xc000_0200,
        peer_asn: 65000,
        prefix_addr: IpAddress::V6(0xffff_0a00_0100),
        prefix_len: 24,
        is_post_policy: false,
        is_adj_rib_out: false,
        announced: true,
        synthetic: false,
        origin: "INCOMPLETE".to_string(),
        as_path: vec![],
        next_hop: None,
        multi_exit_discriminator: None,
        local_preference: None,
        only_to_customer: None,
        atomic_aggregate: false,
        aggregator_asn: None,
        aggregator_bgp_id: None,
        communities: vec![],
        extended_communities: vec![],
        large_communities: vec![],
        originator_id: None,
        cluster_list: vec![],
        mp_reach_afi: None,
        mp_reach_safi: None,
        mp_unreach_afi: None,
        mp_unreach_safi: None,
    }];
    let mut state = Some(State::new(MemoryStore::new()));
    let updates = route_monitoring_at(&mut state, metadata(), body.clone(), 0);
    assert_eq!(updates.len(), expects.len());
    for (update, expect) in updates.iter().zip(expects.iter()) {
        assert_eq!(update, expect);
    }

    let mut state = Some(State::new(MemoryStore::new()));
    let updates = route_monitoring(&mut state, metadata(), body);
    assert_eq!(updates.len(), expects.len());
    for (update, expect) in updates.into_iter().zip(expects.iter()) {
        let mut update = update;
        update.time_received_ns = expect.time_received_ns;
        assert_eq!(update, expect.clone());
    }
}

#[test]
fn records_differ_where_any_field_differs() {
    let body = update_message(vec![prefix(10, 0, 1, 0, 24)], vec![]);
    let base = decode_updates_at(body, metadata(), 0).unwrap().remove(0);
    assert_eq!(base, base.clone());
    let mut other = base.clone();
    other.as_path.push(1);
    assert_ne!(base, other);
    let mut other = base.clone();
    other.extended_communities.push((0, 1, vec![2]));
    assert_ne!(base, other);
    let mut other = base.clone();
    other.next_hop = Some(IpAddress::V6(1));
    assert_ne!(base, other);
    let mut other = base.clone();
    other.origin = "IGP".to_string();
    assert_ne!(base, other);
    let mut other = base.clone();
    other.synthetic = true;
    assert_ne!(base, other);
}

#[test]
fn no_update_message_decodes_to_nothing() {
    let body = RouteMonitoring { bgp_message: BgpMessage::KeepAlive };
    assert!(decode_updates_at(body, metadata(), 0).is_none());
    let body = RouteMonitoring { bgp_message: BgpMessage::Open };
    assert!(decode_updates(body, metadata()).is_none());
}

#[test]
fn update_without_prefixes_decodes_to_nothing() {
    assert!(decode_updates_at(update_message(vec![], vec![]), metadata(), 0).is_none());
}

#[test]
fn prefixes_come_in_the_fixed_order() {
    let mut attributes = Attributes::empty();
    attributes.reachable_nlri = Some(Nlri {
        afi: Afi::Ipv6,
        safi: Safi::Unicast,
        prefixes: vec![NetworkPrefix { addr: IpAddress::V6(0x2001_0db8 << 96), len: 32 }],
    });
    attributes.unreachable_nlri = Some(Nlri {
        afi: Afi::Ipv4,
        safi: Safi::Multicast,
        prefixes: vec![prefix(10, 9, 0, 0, 16), prefix(10, 10, 0, 0, 16)],
    });
    let body = RouteMonitoring {
        bgp_message: BgpMessage::Update(BgpUpdateMessage {
            announced_prefixes: vec![prefix(10, 0, 1, 0, 24), prefix(10, 0, 2, 0, 24)],
            withdrawn_prefixes: vec![prefix(10, 0, 3, 0, 24)],
            attributes,
        }),
    };
    let updates = decode_updates_at(body, metadata(), 77).unwrap();
    let seen: Vec<(IpAddress, u8, bool)> =
        updates.iter().map(|u| (u.prefix_addr, u.prefix_len, u.announced)).collect();
    assert_eq!(
        seen,
        vec![
            (IpAddress::V6(0xffff_0a00_0100), 24, true),
            (IpAddress::V6(0xffff_0a00_0200), 24, true),
            (IpAddress::V6(0xffff_0a00_0300), 24, false),
            (IpAddress::V6(0x2001_0db8 << 96), 32, true),
            (IpAddress::V6(0xffff_0a09_0000), 16, false),
            (IpAddress::V6(0xffff_0a0a_0000), 16, false),
        ]
    );
    for u in &updates {
        assert_eq!(u.mp_reach_afi, Some(2));
        assert_eq!(u.mp_reach_safi, Some(1));
        assert_eq!(u.mp_unreach_afi, Some(1));
        assert_eq!(u.mp_unreach_safi, Some(2));
        assert_eq!(u.time_received_ns, 77);
        assert!(!u.synthetic);
    }
}

#[test]
fn attributes_are_copied_into_every_record() {
    let mut attributes = Attributes::empty();
    attributes.origin = Origin::Igp;
    attributes.as_path = Some(AsPath::from_segments(vec![
        ParsedSegment::sequence([65001, 65002]),
        ParsedSegment::set([1, 2]),
        ParsedSegment::sequence([65003]),
    ]));
    attributes.next_hop = Some(IpAddress::v4(192, 0, 2, 254));
    attributes.multi_exit_discriminator = Some(5);
    attributes.local_preference = Some(100);
    attributes.only_to_customer = Some(64512);
    attributes.atomic_aggregate = true;
    attributes.aggregator = Some((65010, 0x0a00_0001));
    attributes.communities = vec![
        MetaCommunity::Plain(Community::Custom(65000, 120)),
        MetaCommunity::Large(LargeCommunity { global_admin: 1, local_data1: 2, local_data2: 3 }),
        MetaCommunity::Plain(Community::NoExport),
    ];
    attributes.origin_id = Some(9);
    attributes.clusters = Some(vec![7, 8]);
    let body = RouteMonitoring {
        bgp_message: BgpMessage::Update(BgpUpdateMessage {
            announced_prefixes: vec![prefix(10, 0, 1, 0, 24)],
            withdrawn_prefixes: vec![prefix(10, 0, 2, 0, 24)],
            attributes,
        }),
    };
    let updates = decode_updates_at(body, metadata(), 1).unwrap();
    assert_eq!(updates.len(), 2);
    for u in &updates {
        assert_eq!(u.origin, "IGP");
        assert_eq!(u.as_path, vec![65001, 65002, 65003]);
        assert_eq!(u.next_hop, Some(IpAddress::V6(0xffff_c000_02fe)));
        assert_eq!(u.multi_exit_discriminator, Some(5));
        assert_eq!(u.local_preference, Some(100));
        assert_eq!(u.only_to_customer, Some(64512));
        assert!(u.atomic_aggregate);
        assert_eq!(u.aggregator_asn, Some(65010));
        assert_eq!(u.aggregator_bgp_id, Some(0x0a00_0001));
        assert_eq!(u.communities, vec![(65000, 120), (0xFFFF, 0xFF01)]);
        assert_eq!(u.large_communities, vec![(1, 2, 3)]);
        assert!(u.extended_communities.is_empty());
        assert_eq!(u.originator_id, Some(9));
        assert_eq!(u.cluster_list, vec![7, 8]);
    }
    assert!(updates[0].announced);
    assert!(!updates[1].announced);
}

#[test]
fn path_keeps_sequences_and_skips_sets() {
    let path = AsPath::from_segments(vec![
        ParsedSegment::sequence([]),
        ParsedSegment::sequence([1, 2]),
        ParsedSegment::sequence([]),
        ParsedSegment::sequence([2]),
        ParsedSegment::set([2]),
        ParsedSegment::set([5, 3, 3, 2]),
        ParsedSegment::ConfedSequence(vec![9.into()]),
        ParsedSegment::sequence([7, 7]),
    ]);
    assert_eq!(new_path(Some(path)), vec![1, 2, 2, 7, 7]);
    assert_eq!(new_path(None), Vec::<u32>::new());
    assert_eq!(new_path(Some(AsPath::from_segments(vec![]))), Vec::<u32>::new());
}

#[test]
fn flattening_concatenates_sequences_in_order() {
    let segments = vec![
        AsPathSegment::AsSequence(vec![3, 2, 1]),
        AsPathSegment::AsSet(vec![10, 11]),
        AsPathSegment::ConfedSet(vec![12]),
        AsPathSegment::ConfedSequence(vec![13]),
        AsPathSegment::AsSequence(vec![]),
        AsPathSegment::AsSequence(vec![1]),
    ];
    assert_eq!(flatten_segments(&segments), vec![3, 2, 1, 1]);
}

#[test]
fn well_known_communities_use_the_reserved_asn() {
    let communities = [
        MetaCommunity::Plain(Community::NoExport),
        MetaCommunity::Plain(Community::NoAdvertise),
        MetaCommunity::Plain(Community::NoExportSubConfed),
        MetaCommunity::Plain(Community::Custom(4_200_000_000, 65535)),
        MetaCommunity::Extended(ExtendedCommunity::Raw([1, 2, 3, 4, 5, 6, 7, 8])),
    ];
    assert_eq!(
        new_communities(&communities),
        vec![(0xFFFF, 0xFF01), (0xFFFF, 0xFF02), (0xFFFF, 0xFF03), (4_200_000_000, 65535)]
    );
    assert!(extract_large_communities(&communities).is_empty());
}

#[test]
fn extended_communities_spell_type_subtype_and_value() {
    let two = ExtendedCommunity::TwoOctetAs {
        transitive: true,
        subtype: 2,
        global_admin: 0x0001_fde8,
        local_admin: [0, 0, 0, 100],
    };
    assert_eq!(extended_community_triple(&two), (0x00, 2, vec![0xfd, 0xe8, 0, 0, 0, 100]));
    let two = ExtendedCommunity::TwoOctetAs {
        transitive: false,
        subtype: 2,
        global_admin: 65000,
        local_admin: [1, 2, 3, 4],
    };
    assert_eq!(extended_community_triple(&two), (0x40, 2, vec![0xfd, 0xe8, 1, 2, 3, 4]));
    let v4 = ExtendedCommunity::Ipv4Addr {
        transitive: true,
        subtype: 3,
        global_admin: 0xc000_0201,
        local_admin: [0, 7],
    };
    assert_eq!(extended_community_triple(&v4), (0x01, 3, vec![192, 0, 2, 1, 0, 7]));
    let v4 = ExtendedCommunity::Ipv4Addr {
        transitive: false,
        subtype: 3,
        global_admin: 0xc000_0201,
        local_admin: [0, 7],
    };
    assert_eq!(extended_community_triple(&v4).0, 0x41);
    let four = ExtendedCommunity::FourOctetAs {
        transitive: true,
        subtype: 2,
        global_admin: 0x0102_0304,
        local_admin: [5, 6],
    };
    assert_eq!(extended_community_triple(&four), (0x02, 2, vec![1, 2, 3, 4, 5, 6]));
    let four = ExtendedCommunity::FourOctetAs {
        transitive: false,
        subtype: 2,
        global_admin: 0x0102_0304,
        local_admin: [5, 6],
    };
    assert_eq!(extended_community_triple(&four).0, 0x42);
    let opaque =
        ExtendedCommunity::Opaque { transitive: true, subtype: 12, value: [1, 2, 3, 4, 5, 6] };
    assert_eq!(extended_community_triple(&opaque), (0x03, 12, vec![1, 2, 3, 4, 5, 6]));
    let opaque =
        ExtendedCommunity::Opaque { transitive: false, subtype: 12, value: [1, 2, 3, 4, 5, 6] };
    assert_eq!(extended_community_triple(&opaque).0, 0x43);
    let raw = ExtendedCommunity::Raw([0x80, 9, 1, 2, 3, 4, 5, 6]);
    assert_eq!(extended_community_triple(&raw), (0x80, 9, vec![1, 2, 3, 4, 5, 6]));
    assert_eq!(two.community_type(), Some(ExtendedCommunityType::NonTransitiveTwoOctetAs));
    assert_eq!(raw.community_type(), None);
}

#[test]
fn ipv6_extended_community_has_eighteen_value_octets() {
    let c = Ipv6AddrExtCommunity {
        community_type: 0x00,
        subtype: 2,
        global_admin: 0x2001_0db8_0000_0000_0000_0000_0000_0001,
        local_admin: [0xab, 0xcd],
    };
    let (t, s, value) = ipv6_extended_community_triple(&c);
    assert_eq!((t, s), (0, 2));
    assert_eq!(
        value,
        vec![0x20, 0x01, 0x0d, 0xb8, 0, 0, 0, 0, 0, 0, 0, 0, 0, 0, 0, 1, 0xab, 0xcd]
    );
    let all = [
        MetaCommunity::Ipv6Extended(c),
        MetaCommunity::Plain(Community::NoExport),
        MetaCommunity::Extended(ExtendedCommunity::Raw([1, 2, 3, 4, 5, 6, 7, 8])),
        MetaCommunity::Large(LargeCommunity { global_admin: 4, local_data1: 5, local_data2: 6 }),
    ];
    let extended = extract_extended_communities(&all);
    assert_eq!(extended.len(), 2);
    assert_eq!(extended[0].2.len(), 18);
    assert_eq!(extended[1], (1, 2, vec![3, 4, 5, 6, 7, 8]));
    assert_eq!(extract_large_communities(&all), vec![(4, 5, 6)]);
}

#[test]
fn origins_and_families_have_their_names_and_numbers() {
    assert_eq!(origin_name(Origin::Igp), "IGP");
    assert_eq!(origin_name(Origin::Egp), "EGP");
    assert_eq!(origin_name(Origin::Incomplete), "INCOMPLETE");
    assert_eq!(afi_number(Afi::Ipv4), 1);
    assert_eq!(afi_number(Afi::Ipv6), 2);
    assert_eq!(safi_number(Safi::Unicast), 1);
    assert_eq!(safi_number(Safi::Multicast), 2);
    assert_eq!(safi_number(Safi::UnicastMulticast), 0);
}

#[test]
fn header_time_out_of_range_falls_back_to_now() {
    assert_eq!(header_time(1_700_000_000_000, 42), 1_700_000_000_000);
    assert_eq!(header_time(0, 42), 0);
    assert_eq!(header_time(i64::MAX, 42), 42);
    assert_eq!(header_time(i64::MIN, 42), 42);
    assert_eq!(choose_header_time(5, true, 9), 5);
    assert_eq!(choose_header_time(5, false, 9), 9);
}

#[test]
fn decoded_record_falls_back_to_now_for_bad_header_time() {
    let mut m = metadata();
    m.time_bmp_header_ns = i64::MAX;
    let updates =
        decode_updates_at(update_message(vec![prefix(10, 0, 1, 0, 24)], vec![]), m, 1234).unwrap();
    assert_eq!(updates[0].time_bmp_header_ns, 1234);
    assert_eq!(updates[0].time_received_ns, 1234);
}

#[test]
fn metadata_comes_from_the_per_peer_header() {
    let socket = SocketAddress { ip: IpAddress::v4(10, 0, 0, 1), port: 4000 };
    let mut message = BmpMessage {
        per_peer_header: Some(PerPeerHeader {
            peer_flags: PerPeerFlags::PeerFlags { is_post_policy: true, is_adj_rib_out: false },
            peer_ip: IpAddress::v4(192, 0, 2, 1),
            peer_asn: 65000,
            peer_bgp_id: 0xc000_0201,
            timestamp_millis: 1_700_000_000_123,
        }),
        message_body: BmpMessageBody::PeerUpNotification,
    };
    assert_eq!(
        new_metadata(socket, &message),
        Some(UpdateMetadata {
            time_bmp_header_ns: 1_700_000_000_123,
            router_socket: socket,
            peer_addr: IpAddress::v4(192, 0, 2, 1),
            peer_bgp_id: 0xc000_0201,
            peer_asn: 65000,
            is_post_policy: true,
            is_adj_rib_out: false,
        })
    );
    message.per_peer_header = Some(PerPeerHeader {
        peer_flags: PerPeerFlags::LocalRibPeerFlags,
        peer_ip: IpAddress::V6(1),
        peer_asn: 1,
        peer_bgp_id: 2,
        timestamp_millis: 3,
    });
    let m = new_metadata(socket, &message).unwrap();
    assert!(!m.is_post_policy);
    assert!(!m.is_adj_rib_out);
    message.per_peer_header = None;
    assert_eq!(new_metadata(socket, &message), None);
}
