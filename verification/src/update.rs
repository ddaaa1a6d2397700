//! The canonical route-change record and the decoder that produces it.
//!
//! A RouteMonitoring message carries one BGP UPDATE. The decoder turns it
//! into one [`Update`] per prefix, in a fixed order: the announced prefixes,
//! the withdrawn prefixes, the prefixes of MP_REACH_NLRI (announced), the
//! prefixes of MP_UNREACH_NLRI (withdrawn). The path attributes are read once
//! and copied into every record, and every address is brought into its
//! 128-bit form.

use crate::addr::{map_to_ipv6, octets_of, serialize_ip_addr, IpAddress, SocketAddress};
use crate::clock::{header_time, header_time_of, now_millis, representable_millis};
use crate::message::{
    Afi, AsPathSegment, Attributes, BgpMessage, BgpUpdateMessage, BmpMessage, Community,
    ExtendedCommunity, ExtendedCommunityType, Ipv6AddrExtCommunity, MetaCommunity, NetworkPrefix,
    flatten_sequences, path_segments, segment_models, segments_of, Nlri, Origin, PerPeerFlags,
    PerPeerHeader, RouteMonitoring, Safi, SegmentModel,
};
use bgpkit_parser::models::ExtendedCommunityType as ParserType;
use vstd::prelude::*;

verus! {

/// What the per-peer header and the connection say of a message.
#[derive(Clone, Copy, Debug, PartialEq, Eq, Structural)]
pub struct UpdateMetadata {
    /// The per-peer header's timestamp, in milliseconds since the Unix epoch.
    pub time_bmp_header_ns: i64,
    pub router_socket: SocketAddress,
    pub peer_addr: IpAddress,
    pub peer_bgp_id: u32,
    pub peer_asn: u32,
    pub is_post_policy: bool,
    pub is_adj_rib_out: bool,
}

/// One route change: a prefix announced or withdrawn by a peer of a router.
#[derive(Debug)]
pub struct Update {
    /// When the collector saw the change, in milliseconds since the Unix
    /// epoch.
    pub time_received_ns: i64,
    /// The time the per-peer header gives, in milliseconds since the Unix
    /// epoch.
    pub time_bmp_header_ns: i64,
    pub router_addr: IpAddress,
    pub router_port: u16,
    pub peer_addr: IpAddress,
    pub peer_bgp_id: u32,
    pub peer_asn: u32,
    pub prefix_addr: IpAddress,
    pub prefix_len: u8,
    pub is_post_policy: bool,
    pub is_adj_rib_out: bool,
    pub announced: bool,
    pub synthetic: bool,
    /// `IGP`, `EGP` or `INCOMPLETE`.
    pub origin: String,
    pub as_path: Vec<u32>,
    pub next_hop: Option<IpAddress>,
    pub multi_exit_discriminator: Option<u32>,
    pub local_preference: Option<u32>,
    pub only_to_customer: Option<u32>,
    pub atomic_aggregate: bool,
    pub aggregator_asn: Option<u32>,
    pub aggregator_bgp_id: Option<u32>,
    pub communities: Vec<(u32, u16)>,
    /// Each as its type octet, its subtype octet and the octets of its value.
    pub extended_communities: Vec<(u8, u8, Vec<u8>)>,
    /// Each as its global administrator and its two local data parts.
    pub large_communities: Vec<(u32, u32, u32)>,
    pub originator_id: Option<u32>,
    pub cluster_list: Vec<u32>,
    pub mp_reach_afi: Option<u16>,
    pub mp_reach_safi: Option<u8>,
    pub mp_unreach_afi: Option<u16>,
    pub mp_unreach_safi: Option<u8>,
}

/// The path attributes of an [`Update`], as mathematical values.
pub struct PathModel {
    pub origin: Seq<char>,
    pub as_path: Seq<u32>,
    pub next_hop: Option<IpAddress>,
    pub multi_exit_discriminator: Option<u32>,
    pub local_preference: Option<u32>,
    pub only_to_customer: Option<u32>,
    pub atomic_aggregate: bool,
    pub aggregator_asn: Option<u32>,
    pub aggregator_bgp_id: Option<u32>,
    pub communities: Seq<(u32, u16)>,
    pub extended_communities: Seq<(u8, u8, Seq<u8>)>,
    pub large_communities: Seq<(u32, u32, u32)>,
    pub originator_id: Option<u32>,
    pub cluster_list: Seq<u32>,
    pub mp_reach_afi: Option<u16>,
    pub mp_reach_safi: Option<u8>,
    pub mp_unreach_afi: Option<u16>,
    pub mp_unreach_safi: Option<u8>,
}

/// An [`Update`] as a mathematical value.
pub struct UpdateModel {
    pub time_received_ns: i64,
    pub time_bmp_header_ns: i64,
    pub router_addr: IpAddress,
    pub router_port: u16,
    pub peer_addr: IpAddress,
    pub peer_bgp_id: u32,
    pub peer_asn: u32,
    pub prefix_addr: IpAddress,
    pub prefix_len: u8,
    pub is_post_policy: bool,
    pub is_adj_rib_out: bool,
    pub announced: bool,
    pub synthetic: bool,
    pub path: PathModel,
}

impl Update {
    /// The path attributes of the record.
    pub open spec fn path(&self) -> PathModel {
        PathModel {
            origin: self.origin@,
            as_path: self.as_path@,
            next_hop: self.next_hop,
            multi_exit_discriminator: self.multi_exit_discriminator,
            local_preference: self.local_preference,
            only_to_customer: self.only_to_customer,
            atomic_aggregate: self.atomic_aggregate,
            aggregator_asn: self.aggregator_asn,
            aggregator_bgp_id: self.aggregator_bgp_id,
            communities: self.communities@,
            extended_communities: self.extended_communities.deep_view(),
            large_communities: self.large_communities@,
            originator_id: self.originator_id,
            cluster_list: self.cluster_list@,
            mp_reach_afi: self.mp_reach_afi,
            mp_reach_safi: self.mp_reach_safi,
            mp_unreach_afi: self.mp_unreach_afi,
            mp_unreach_safi: self.mp_unreach_safi,
        }
    }
}

impl View for Update {
    type V = UpdateModel;

    open spec fn view(&self) -> UpdateModel {
        UpdateModel {
            time_received_ns: self.time_received_ns,
            time_bmp_header_ns: self.time_bmp_header_ns,
            router_addr: self.router_addr,
            router_port: self.router_port,
            peer_addr: self.peer_addr,
            peer_bgp_id: self.peer_bgp_id,
            peer_asn: self.peer_asn,
            prefix_addr: self.prefix_addr,
            prefix_len: self.prefix_len,
            is_post_policy: self.is_post_policy,
            is_adj_rib_out: self.is_adj_rib_out,
            announced: self.announced,
            synthetic: self.synthetic,
            path: self.path(),
        }
    }
}

/// A copy of a vector of plain values.
pub(crate) fn copy_of<T: Copy>(v: &Vec<T>) -> (r: Vec<T>)
    ensures
        r@ == v@,
{
    let mut out: Vec<T> = Vec::with_capacity(v.len());
    let mut i: usize = 0;
    while i < v.len()
        invariant
            i <= v@.len(),
            out@ == v@.take(i as int),
        decreases v@.len() - i,
    {
        out.push(v[i]);
        assert(v@.take(i as int).push(v@[i as int]) =~= v@.take(i + 1));
        i += 1;
    }
    assert(v@.take(v@.len() as int) =~= v@);
    out
}

/// A copy of a list of extended communities.
fn copy_of_extended(v: &Vec<(u8, u8, Vec<u8>)>) -> (r: Vec<(u8, u8, Vec<u8>)>)
    ensures
        r.deep_view() == v.deep_view(),
{
    let mut out: Vec<(u8, u8, Vec<u8>)> = Vec::with_capacity(v.len());
    let mut i: usize = 0;
    while i < v.len()
        invariant
            i <= v@.len(),
            out@.len() == i,
            forall|j: int| 0 <= j < i ==> out@[j].deep_view() == v@[j].deep_view(),
        decreases v@.len() - i,
    {
        let value: Vec<u8> = copy_of(&v[i].2);
        assert(value.deep_view() =~= v@[i as int].2.deep_view());
        out.push((v[i].0, v[i].1, value));
        i += 1;
    }
    assert(out.deep_view() =~= v.deep_view());
    out
}

impl Clone for Update {
    fn clone(&self) -> (r: Update)
        ensures
            r@ == self@,
    {
        Update {
            time_received_ns: self.time_received_ns,
            time_bmp_header_ns: self.time_bmp_header_ns,
            router_addr: self.router_addr,
            router_port: self.router_port,
            peer_addr: self.peer_addr,
            peer_bgp_id: self.peer_bgp_id,
            peer_asn: self.peer_asn,
            prefix_addr: self.prefix_addr,
            prefix_len: self.prefix_len,
            is_post_policy: self.is_post_policy,
            is_adj_rib_out: self.is_adj_rib_out,
            announced: self.announced,
            synthetic: self.synthetic,
            origin: self.origin.clone(),
            as_path: copy_of(&self.as_path),
            next_hop: self.next_hop,
            multi_exit_discriminator: self.multi_exit_discriminator,
            local_preference: self.local_preference,
            only_to_customer: self.only_to_customer,
            atomic_aggregate: self.atomic_aggregate,
            aggregator_asn: self.aggregator_asn,
            aggregator_bgp_id: self.aggregator_bgp_id,
            communities: copy_of(&self.communities),
            extended_communities: copy_of_extended(&self.extended_communities),
            large_communities: copy_of(&self.large_communities),
            originator_id: self.originator_id,
            cluster_list: copy_of(&self.cluster_list),
            mp_reach_afi: self.mp_reach_afi,
            mp_reach_safi: self.mp_reach_safi,
            mp_unreach_afi: self.mp_unreach_afi,
            mp_unreach_safi: self.mp_unreach_safi,
        }
    }
}

/// Whether two lists of numbers hold the same numbers in the same order.
fn same_numbers(a: &Vec<u32>, b: &Vec<u32>) -> (r: bool)
    ensures
        r == (a@ == b@),
{
    if a.len() != b.len() {
        return false;
    }
    let mut i: usize = 0;
    while i < a.len()
        invariant
            i <= a@.len(),
            a@.len() == b@.len(),
            forall|j: int| 0 <= j < i ==> a@[j] == b@[j],
        decreases a@.len() - i,
    {
        if a[i] != b[i] {
            return false;
        }
        i += 1;
    }
    assert(a@ =~= b@);
    true
}

/// Whether two lists of octets hold the same octets in the same order.
fn same_octets(a: &Vec<u8>, b: &Vec<u8>) -> (r: bool)
    ensures
        r == (a@ == b@),
{
    if a.len() != b.len() {
        return false;
    }
    let mut i: usize = 0;
    while i < a.len()
        invariant
            i <= a@.len(),
            a@.len() == b@.len(),
            forall|j: int| 0 <= j < i ==> a@[j] == b@[j],
        decreases a@.len() - i,
    {
        if a[i] != b[i] {
            return false;
        }
        i += 1;
    }
    assert(a@ =~= b@);
    true
}

/// Whether two lists of standard communities are the same.
fn same_communities(a: &Vec<(u32, u16)>, b: &Vec<(u32, u16)>) -> (r: bool)
    ensures
        r == (a@ == b@),
{
    if a.len() != b.len() {
        return false;
    }
    let mut i: usize = 0;
    while i < a.len()
        invariant
            i <= a@.len(),
            a@.len() == b@.len(),
            forall|j: int| 0 <= j < i ==> a@[j] == b@[j],
        decreases a@.len() - i,
    {
        if a[i].0 != b[i].0 || a[i].1 != b[i].1 {
            return false;
        }
        i += 1;
    }
    assert(a@ =~= b@);
    true
}

/// Whether two lists of large communities are the same.
fn same_large_communities(a: &Vec<(u32, u32, u32)>, b: &Vec<(u32, u32, u32)>) -> (r: bool)
    ensures
        r == (a@ == b@),
{
    if a.len() != b.len() {
        return false;
    }
    let mut i: usize = 0;
    while i < a.len()
        invariant
            i <= a@.len(),
            a@.len() == b@.len(),
            forall|j: int| 0 <= j < i ==> a@[j] == b@[j],
        decreases a@.len() - i,
    {
        if a[i].0 != b[i].0 || a[i].1 != b[i].1 || a[i].2 != b[i].2 {
            return false;
        }
        i += 1;
    }
    assert(a@ =~= b@);
    true
}

/// Whether two lists of extended communities are the same.
fn same_extended_communities(a: &Vec<(u8, u8, Vec<u8>)>, b: &Vec<(u8, u8, Vec<u8>)>) -> (r: bool)
    ensures
        r == (a.deep_view() == b.deep_view()),
{
    if a.len() != b.len() {
        assert(a.deep_view().len() != b.deep_view().len());
        return false;
    }
    let mut i: usize = 0;
    while i < a.len()
        invariant
            i <= a@.len(),
            a@.len() == b@.len(),
            forall|j: int| 0 <= j < i ==> a@[j].deep_view() == b@[j].deep_view(),
        decreases a@.len() - i,
    {
        proof {
            assert(a@[i as int].2.deep_view() =~= a@[i as int].2@);
            assert(b@[i as int].2.deep_view() =~= b@[i as int].2@);
            assert(a.deep_view()[i as int] == a@[i as int].deep_view());
            assert(b.deep_view()[i as int] == b@[i as int].deep_view());
        }
        if a[i].0 != b[i].0 || a[i].1 != b[i].1 || !same_octets(&a[i].2, &b[i].2) {
            return false;
        }
        i += 1;
    }
    assert(a.deep_view() =~= b.deep_view());
    true
}

/// Whether two optional addresses are the same.
fn same_hop(a: Option<IpAddress>, b: Option<IpAddress>) -> (r: bool)
    ensures
        r == (a == b),
{
    match (a, b) {
        (None, None) => true,
        (Some(x), Some(y)) => x == y,
        _ => false,
    }
}

impl PartialEq for Update {
    fn eq(&self, other: &Update) -> (r: bool) {
        let same_prefix = self.router_addr == other.router_addr && self.router_port
            == other.router_port && self.peer_addr == other.peer_addr && self.peer_bgp_id
            == other.peer_bgp_id && self.peer_asn == other.peer_asn && self.prefix_addr
            == other.prefix_addr && self.prefix_len == other.prefix_len && self.is_post_policy
            == other.is_post_policy && self.is_adj_rib_out == other.is_adj_rib_out;
        let same_event = self.time_received_ns == other.time_received_ns
            && self.time_bmp_header_ns == other.time_bmp_header_ns && self.announced
            == other.announced && self.synthetic == other.synthetic;
        let same_path = self.origin == other.origin && same_numbers(&self.as_path, &other.as_path)
            && same_hop(self.next_hop, other.next_hop) && self.multi_exit_discriminator
            == other.multi_exit_discriminator && self.local_preference == other.local_preference
            && self.only_to_customer == other.only_to_customer && self.atomic_aggregate
            == other.atomic_aggregate && self.aggregator_asn == other.aggregator_asn
            && self.aggregator_bgp_id == other.aggregator_bgp_id && self.originator_id
            == other.originator_id && same_numbers(&self.cluster_list, &other.cluster_list);
        let same_tags = same_communities(&self.communities, &other.communities)
            && same_extended_communities(&self.extended_communities, &other.extended_communities)
            && same_large_communities(&self.large_communities, &other.large_communities);
        let same_families = self.mp_reach_afi == other.mp_reach_afi && self.mp_reach_safi
            == other.mp_reach_safi && self.mp_unreach_afi == other.mp_unreach_afi
            && self.mp_unreach_safi == other.mp_unreach_safi;
        same_prefix && same_event && same_path && same_tags && same_families
    }
}

impl vstd::std_specs::cmp::PartialEqSpecImpl for Update {
    open spec fn obeys_eq_spec() -> bool {
        true
    }

    open spec fn eq_spec(&self, other: &Update) -> bool {
        self@ == other@
    }
}

/// The flat AS path of an optional AS path attribute: the AS numbers of the
/// AS_SEQUENCE segments of the path, in order; empty where there is no path.
pub open spec fn flat_path(path: Option<bgpkit_parser::models::AsPath>) -> Seq<u32> {
    match path {
        Some(p) => flatten_sequences(path_segments(p)),
        None => Seq::empty(),
    }
}

/// Flattening keeps the order of the segments: the flat path of two runs of
/// segments, one after the other, is the flat path of the first followed by
/// the flat path of the second.
pub proof fn law_flatten_keeps_order(a: Seq<SegmentModel>, b: Seq<SegmentModel>)
    ensures
        flatten_sequences(a + b) == flatten_sequences(a) + flatten_sequences(b),
    decreases b.len(),
{
    if b.len() == 0 {
        assert(a + b =~= a);
        assert(flatten_sequences(a) + flatten_sequences(b) =~= flatten_sequences(a));
    } else {
        law_flatten_keeps_order(a, b.drop_last());
        assert((a + b).drop_last() =~= a + b.drop_last());
        assert((a + b).last() == b.last());
        assert(flatten_sequences(a + b) =~= flatten_sequences(a) + flatten_sequences(b));
    }
}

/// Flattening takes the AS numbers of an AS_SEQUENCE segment as they are and
/// nothing of a segment of any other kind: no AS_SET, no confederation
/// segment adds to the flat path.
pub proof fn law_flatten_takes_sequences_only(segment: SegmentModel)
    ensures
        flatten_sequences(seq![segment]) == (match segment {
            SegmentModel::AsSequence(asns) => asns,
            _ => Seq::empty(),
        }),
{
    let one = seq![segment];
    assert(one.drop_last() =~= Seq::<SegmentModel>::empty());
    assert(one.last() == segment);
    assert(flatten_sequences(one.drop_last()) =~= Seq::<u32>::empty());
    match segment {
        SegmentModel::AsSequence(asns) => {
            assert(Seq::<u32>::empty() + asns =~= asns);
            assert(flatten_sequences(one) =~= asns);
        },
        _ => {
            assert(flatten_sequences(one) =~= Seq::<u32>::empty());
        },
    }
}

/// Concatenates the AS numbers of the AS_SEQUENCE segments.
pub fn flatten_segments(segments: &Vec<AsPathSegment>) -> (r: Vec<u32>)
    ensures
        r@ == flatten_sequences(segment_models(segments@)),
{
    let ghost models = segment_models(segments@);
    let mut out: Vec<u32> = Vec::new();
    let mut i: usize = 0;
    while i < segments.len()
        invariant
            i <= segments@.len(),
            models == segment_models(segments@),
            out@ == flatten_sequences(models.take(i as int)),
        decreases segments@.len() - i,
    {
        proof {
            assert(models.take(i + 1).drop_last() =~= models.take(i as int));
            assert(models.take(i + 1).last() == segments@[i as int]@);
        }
        match &segments[i] {
            AsPathSegment::AsSequence(asns) => {
                let ghost before = out@;
                let mut j: usize = 0;
                while j < asns.len()
                    invariant
                        j <= asns@.len(),
                        out@ == before + asns@.take(j as int),
                    decreases asns@.len() - j,
                {
                    out.push(asns[j]);
                    assert(asns@.take(j as int).push(asns@[j as int]) =~= asns@.take(j + 1));
                    j += 1;
                }
                assert(asns@.take(asns@.len() as int) =~= asns@);
            },
            _ => {},
        }
        i += 1;
    }
    assert(models.take(models.len() as int) =~= models);
    out
}

/// The flat AS path of an optional AS path attribute. The path is coalesced
/// before it is read, which merges its segments and leaves its flat path as
/// it was.
pub fn new_path(path: Option<bgpkit_parser::models::AsPath>) -> (r: Vec<u32>)
    ensures
        r@ == flat_path(path),
{
    match path {
        Some(p) => {
            let mut p = p;
            p.coalesce();
            let segments = segments_of(&p);
            flatten_segments(&segments)
        },
        None => Vec::new(),
    }
}

/// The AS number and value that stand for a standard community. The
/// well-known communities are written under the reserved AS number 65535.
pub open spec fn community_pair(c: Community) -> (u32, u16) {
    match c {
        Community::Custom(asn, value) => (asn, value),
        Community::NoExport => (0xFFFFu32, 0xFF01u16),
        Community::NoAdvertise => (0xFFFFu32, 0xFF02u16),
        Community::NoExportSubConfed => (0xFFFFu32, 0xFF03u16),
    }
}

/// The standard communities among `communities`, in order, each as its pair.
pub open spec fn plain_communities(communities: Seq<MetaCommunity>) -> Seq<(u32, u16)>
    decreases communities.len(),
{
    if communities.len() == 0 {
        Seq::empty()
    } else {
        let before = plain_communities(communities.drop_last());
        match communities.last() {
            MetaCommunity::Plain(c) => before.push(community_pair(c)),
            _ => before,
        }
    }
}

/// The large communities among `communities`, in order, each as its triple.
pub open spec fn large_communities_of(communities: Seq<MetaCommunity>) -> Seq<(u32, u32, u32)>
    decreases communities.len(),
{
    if communities.len() == 0 {
        Seq::empty()
    } else {
        let before = large_communities_of(communities.drop_last());
        match communities.last() {
            MetaCommunity::Large(c) => before.push((c.global_admin, c.local_data1, c.local_data2)),
            _ => before,
        }
    }
}

/// The standard communities of a list of communities.
pub fn new_communities(communities: &[MetaCommunity]) -> (r: Vec<(u32, u16)>)
    ensures
        r@ == plain_communities(communities@),
{
    let mut out: Vec<(u32, u16)> = Vec::new();
    let mut i: usize = 0;
    while i < communities.len()
        invariant
            i <= communities@.len(),
            out@ == plain_communities(communities@.take(i as int)),
        decreases communities@.len() - i,
    {
        proof {
            assert(communities@.take(i + 1).drop_last() =~= communities@.take(i as int));
        }
        match communities[i] {
            MetaCommunity::Plain(Community::Custom(asn, value)) => out.push((asn, value)),
            MetaCommunity::Plain(Community::NoExport) => out.push((0xFFFF, 0xFF01)),
            MetaCommunity::Plain(Community::NoAdvertise) => out.push((0xFFFF, 0xFF02)),
            MetaCommunity::Plain(Community::NoExportSubConfed) => out.push((0xFFFF, 0xFF03)),
            _ => {},
        }
        i += 1;
    }
    assert(communities@.take(communities@.len() as int) =~= communities@);
    out
}

/// The large communities of a list of communities.
pub fn extract_large_communities(communities: &[MetaCommunity]) -> (r: Vec<(u32, u32, u32)>)
    ensures
        r@ == large_communities_of(communities@),
{
    let mut out: Vec<(u32, u32, u32)> = Vec::new();
    let mut i: usize = 0;
    while i < communities.len()
        invariant
            i <= communities@.len(),
            out@ == large_communities_of(communities@.take(i as int)),
        decreases communities@.len() - i,
    {
        proof {
            assert(communities@.take(i + 1).drop_last() =~= communities@.take(i as int));
        }
        match communities[i] {
            MetaCommunity::Large(c) => out.push((c.global_admin, c.local_data1, c.local_data2)),
            _ => {},
        }
        i += 1;
    }
    assert(communities@.take(communities@.len() as int) =~= communities@);
    out
}

impl ExtendedCommunity {
    /// The type of the community, where its layout is known.
    pub open spec fn kind(self) -> Option<ExtendedCommunityType> {
        match self {
            ExtendedCommunity::TwoOctetAs { transitive, .. } => Some(
                if transitive {
                    ExtendedCommunityType::TransitiveTwoOctetAs
                } else {
                    ExtendedCommunityType::NonTransitiveTwoOctetAs
                },
            ),
            ExtendedCommunity::Ipv4Addr { transitive, .. } => Some(
                if transitive {
                    ExtendedCommunityType::TransitiveIpv4Addr
                } else {
                    ExtendedCommunityType::NonTransitiveIpv4Addr
                },
            ),
            ExtendedCommunity::FourOctetAs { transitive, .. } => Some(
                if transitive {
                    ExtendedCommunityType::TransitiveFourOctetAs
                } else {
                    ExtendedCommunityType::NonTransitiveFourOctetAs
                },
            ),
            ExtendedCommunity::Opaque { transitive, .. } => Some(
                if transitive {
                    ExtendedCommunityType::TransitiveOpaque
                } else {
                    ExtendedCommunityType::NonTransitiveOpaque
                },
            ),
            ExtendedCommunity::Raw(_) => None,
        }
    }

    /// The type of the community, where its layout is known.
    pub fn community_type(&self) -> (r: Option<ExtendedCommunityType>)
        ensures
            r == self.kind(),
    {
        match self {
            ExtendedCommunity::TwoOctetAs { transitive, .. } => Some(
                if *transitive {
                    ExtendedCommunityType::TransitiveTwoOctetAs
                } else {
                    ExtendedCommunityType::NonTransitiveTwoOctetAs
                },
            ),
            ExtendedCommunity::Ipv4Addr { transitive, .. } => Some(
                if *transitive {
                    ExtendedCommunityType::TransitiveIpv4Addr
                } else {
                    ExtendedCommunityType::NonTransitiveIpv4Addr
                },
            ),
            ExtendedCommunity::FourOctetAs { transitive, .. } => Some(
                if *transitive {
                    ExtendedCommunityType::TransitiveFourOctetAs
                } else {
                    ExtendedCommunityType::NonTransitiveFourOctetAs
                },
            ),
            ExtendedCommunity::Opaque { transitive, .. } => Some(
                if *transitive {
                    ExtendedCommunityType::TransitiveOpaque
                } else {
                    ExtendedCommunityType::NonTransitiveOpaque
                },
            ),
            ExtendedCommunity::Raw(_) => None,
        }
    }
}

/// The octet that names a type of extended community on the wire.
pub open spec fn type_octet(t: ExtendedCommunityType) -> u8 {
    match t {
        ExtendedCommunityType::TransitiveTwoOctetAs => 0x00u8,
        ExtendedCommunityType::TransitiveIpv4Addr => 0x01u8,
        ExtendedCommunityType::TransitiveFourOctetAs => 0x02u8,
        ExtendedCommunityType::TransitiveOpaque => 0x03u8,
        ExtendedCommunityType::NonTransitiveTwoOctetAs => 0x40u8,
        ExtendedCommunityType::NonTransitiveIpv4Addr => 0x41u8,
        ExtendedCommunityType::NonTransitiveFourOctetAs => 0x42u8,
        ExtendedCommunityType::NonTransitiveOpaque => 0x43u8,
    }
}

/// Asks bgpkit-parser for the octet of a type of extended community: the
/// conversion of its `ExtendedCommunityType` into `u8`, which gives each named
/// type the number that the type's declaration assigns to it.
#[verifier::external_body]
fn type_octet_of(t: ExtendedCommunityType) -> (r: u8)
    ensures
        r == type_octet(t),
{
    u8::from(match t {
        ExtendedCommunityType::TransitiveTwoOctetAs => ParserType::TransitiveTwoOctetAs,
        ExtendedCommunityType::TransitiveIpv4Addr => ParserType::TransitiveIpv4Addr,
        ExtendedCommunityType::TransitiveFourOctetAs => ParserType::TransitiveFourOctetAs,
        ExtendedCommunityType::TransitiveOpaque => ParserType::TransitiveOpaque,
        ExtendedCommunityType::NonTransitiveTwoOctetAs => ParserType::NonTransitiveTwoOctetAs,
        ExtendedCommunityType::NonTransitiveIpv4Addr => ParserType::NonTransitiveIpv4Addr,
        ExtendedCommunityType::NonTransitiveFourOctetAs => ParserType::NonTransitiveFourOctetAs,
        ExtendedCommunityType::NonTransitiveOpaque => ParserType::NonTransitiveOpaque,
    })
}

/// The four octets of a 32-bit number, most significant first.
pub open spec fn be_bytes32(x: u32) -> Seq<u8> {
    seq![
        ((x >> 24u32) & 0xffu32) as u8,
        ((x >> 16u32) & 0xffu32) as u8,
        ((x >> 8u32) & 0xffu32) as u8,
        (x & 0xffu32) as u8,
    ]
}

/// The type octet, the subtype octet and the value octets of an extended
/// community. The value of a community with a two-octet AS number holds the
/// two low octets of that number before the local part.
pub open spec fn extended_triple(c: ExtendedCommunity) -> (u8, u8, Seq<u8>) {
    match c {
        ExtendedCommunity::TwoOctetAs { subtype, global_admin, local_admin, .. } => (
            type_octet(c.kind().unwrap()),
            subtype,
            be_bytes32(global_admin).subrange(2, 4) + local_admin@,
        ),
        ExtendedCommunity::Ipv4Addr { subtype, global_admin, local_admin, .. } => (
            type_octet(c.kind().unwrap()),
            subtype,
            be_bytes32(global_admin) + local_admin@,
        ),
        ExtendedCommunity::FourOctetAs { subtype, global_admin, local_admin, .. } => (
            type_octet(c.kind().unwrap()),
            subtype,
            be_bytes32(global_admin) + local_admin@,
        ),
        ExtendedCommunity::Opaque { subtype, value, .. } => (
            type_octet(c.kind().unwrap()),
            subtype,
            value@,
        ),
        ExtendedCommunity::Raw(octets) => (octets@[0], octets@[1], octets@.subrange(2, 8)),
    }
}

/// The type octet, the subtype octet and the value octets of an
/// IPv6-address-specific extended community.
pub open spec fn ipv6_extended_triple(c: Ipv6AddrExtCommunity) -> (u8, u8, Seq<u8>) {
    (c.community_type, c.subtype, octets_of(c.global_admin) + c.local_admin@)
}

/// The extended communities among `communities`, of both widths, in order,
/// each as its triple.
pub open spec fn extended_communities_of(communities: Seq<MetaCommunity>) -> Seq<
    (u8, u8, Seq<u8>),
>
    decreases communities.len(),
{
    if communities.len() == 0 {
        Seq::empty()
    } else {
        let before = extended_communities_of(communities.drop_last());
        match communities.last() {
            MetaCommunity::Extended(c) => before.push(extended_triple(c)),
            MetaCommunity::Ipv6Extended(c) => before.push(ipv6_extended_triple(c)),
            _ => before,
        }
    }
}

/// Appends the octets of `a` from index `from` on.
fn push_octets<const N: usize>(out: &mut Vec<u8>, a: &[u8; N], from: usize)
    requires
        from <= N,
    ensures
        final(out)@ == old(out)@ + a@.subrange(from as int, N as int),
{
    let ghost before = out@;
    let mut i: usize = from;
    while i < N
        invariant
            from <= i <= N,
            a@.len() == N,
            out@ == before + a@.subrange(from as int, i as int),
        decreases N - i,
    {
        out.push(a[i]);
        assert(a@.subrange(from as int, i as int).push(a@[i as int]) =~= a@.subrange(
            from as int,
            i + 1,
        ));
        i += 1;
    }
}

/// Appends the octets of a 32-bit number from index `from` on, most
/// significant first.
fn push_be32(out: &mut Vec<u8>, x: u32, from: usize)
    requires
        from <= 4,
    ensures
        final(out)@ == old(out)@ + be_bytes32(x).subrange(from as int, 4),
{
    let octets: [u8; 4] = [
        ((x >> 24u32) & 0xffu32) as u8,
        ((x >> 16u32) & 0xffu32) as u8,
        ((x >> 8u32) & 0xffu32) as u8,
        (x & 0xffu32) as u8,
    ];
    assert(octets@ =~= be_bytes32(x));
    push_octets(out, &octets, from);
}

/// The triple of one extended community.
pub fn extended_community_triple(c: &ExtendedCommunity) -> (r: (u8, u8, Vec<u8>))
    ensures
        r.deep_view() == extended_triple(*c),
{
    let mut value: Vec<u8> = Vec::new();
    let r = match c {
        ExtendedCommunity::TwoOctetAs { subtype, global_admin, local_admin, .. } => {
            push_be32(&mut value, *global_admin, 2);
            push_octets(&mut value, local_admin, 0);
            let t = c.community_type().unwrap();
            (type_octet_of(t), *subtype, value)
        },
        ExtendedCommunity::Ipv4Addr { subtype, global_admin, local_admin, .. } => {
            push_be32(&mut value, *global_admin, 0);
            push_octets(&mut value, local_admin, 0);
            let t = c.community_type().unwrap();
            (type_octet_of(t), *subtype, value)
        },
        ExtendedCommunity::FourOctetAs { subtype, global_admin, local_admin, .. } => {
            push_be32(&mut value, *global_admin, 0);
            push_octets(&mut value, local_admin, 0);
            let t = c.community_type().unwrap();
            (type_octet_of(t), *subtype, value)
        },
        ExtendedCommunity::Opaque { subtype, value: octets, .. } => {
            push_octets(&mut value, octets, 0);
            let t = c.community_type().unwrap();
            (type_octet_of(t), *subtype, value)
        },
        ExtendedCommunity::Raw(octets) => {
            push_octets(&mut value, octets, 2);
            (octets[0], octets[1], value)
        },
    };
    assert(r.deep_view().2 =~= extended_triple(*c).2);
    r
}

/// The triple of one IPv6-address-specific extended community.
pub fn ipv6_extended_community_triple(c: &Ipv6AddrExtCommunity) -> (r: (u8, u8, Vec<u8>))
    ensures
        r.deep_view() == ipv6_extended_triple(*c),
{
    let mut value: Vec<u8> = serialize_ip_addr(IpAddress::V6(c.global_admin));
    push_octets(&mut value, &c.local_admin, 0);
    let r = (c.community_type, c.subtype, value);
    assert(r.deep_view().2 =~= ipv6_extended_triple(*c).2);
    r
}

/// The extended communities of a list of communities.
pub fn extract_extended_communities(communities: &[MetaCommunity]) -> (r: Vec<(u8, u8, Vec<u8>)>)
    ensures
        r.deep_view() == extended_communities_of(communities@),
{
    let mut out: Vec<(u8, u8, Vec<u8>)> = Vec::new();
    let mut i: usize = 0;
    assert(out.deep_view() =~= extended_communities_of(communities@.take(0)));
    while i < communities.len()
        invariant
            i <= communities@.len(),
            out.deep_view() == extended_communities_of(communities@.take(i as int)),
        decreases communities@.len() - i,
    {
        proof {
            assert(communities@.take(i + 1).drop_last() =~= communities@.take(i as int));
        }
        let ghost before = out.deep_view();
        match &communities[i] {
            MetaCommunity::Extended(c) => {
                let triple = extended_community_triple(c);
                out.push(triple);
                assert(out.deep_view() =~= before.push(extended_triple(*c)));
            },
            MetaCommunity::Ipv6Extended(c) => {
                let triple = ipv6_extended_community_triple(c);
                out.push(triple);
                assert(out.deep_view() =~= before.push(ipv6_extended_triple(*c)));
            },
            _ => {},
        }
        i += 1;
    }
    assert(communities@.take(communities@.len() as int) =~= communities@);
    out
}

/// The name under which an origin is recorded.
pub open spec fn origin_text(origin: Origin) -> Seq<char> {
    match origin {
        Origin::Igp => "IGP"@,
        Origin::Egp => "EGP"@,
        Origin::Incomplete => "INCOMPLETE"@,
    }
}

/// The name under which an origin is recorded: `IGP`, `EGP` or `INCOMPLETE`.
pub fn origin_name(origin: Origin) -> (r: String)
    ensures
        r@ == origin_text(origin),
{
    match origin {
        Origin::Igp => "IGP".to_owned(),
        Origin::Egp => "EGP".to_owned(),
        Origin::Incomplete => "INCOMPLETE".to_owned(),
    }
}

/// The number of an address family: 1 for IPv4, 2 for IPv6.
pub open spec fn afi_code(afi: Afi) -> u16 {
    match afi {
        Afi::Ipv4 => 1u16,
        Afi::Ipv6 => 2u16,
    }
}

/// The number recorded for a subsequent address family: 1 for unicast, 2 for
/// multicast, 0 for any other.
pub open spec fn safi_code(safi: Safi) -> u8 {
    match safi {
        Safi::Unicast => 1u8,
        Safi::Multicast => 2u8,
        Safi::UnicastMulticast => 0u8,
    }
}

/// The number of an address family.
pub fn afi_number(afi: Afi) -> (r: u16)
    ensures
        r == afi_code(afi),
{
    match afi {
        Afi::Ipv4 => 1,
        Afi::Ipv6 => 2,
    }
}

/// The number recorded for a subsequent address family.
pub fn safi_number(safi: Safi) -> (r: u8)
    ensures
        r == safi_code(safi),
{
    match safi {
        Safi::Unicast => 1,
        Safi::Multicast => 2,
        Safi::UnicastMulticast => 0,
    }
}

/// The path attributes that every record decoded from an UPDATE with the
/// attributes `a` carries.
pub open spec fn path_of(a: Attributes) -> PathModel {
    PathModel {
        origin: origin_text(a.origin),
        as_path: flat_path(a.as_path),
        next_hop: match a.next_hop {
            Some(hop) => Some(hop.mapped()),
            None => None,
        },
        multi_exit_discriminator: a.multi_exit_discriminator,
        local_preference: a.local_preference,
        only_to_customer: a.only_to_customer,
        atomic_aggregate: a.atomic_aggregate,
        aggregator_asn: match a.aggregator {
            Some(pair) => Some(pair.0),
            None => None,
        },
        aggregator_bgp_id: match a.aggregator {
            Some(pair) => Some(pair.1),
            None => None,
        },
        communities: plain_communities(a.communities@),
        extended_communities: extended_communities_of(a.communities@),
        large_communities: large_communities_of(a.communities@),
        originator_id: a.origin_id,
        cluster_list: match a.clusters {
            Some(clusters) => clusters@,
            None => Seq::empty(),
        },
        mp_reach_afi: match a.reachable_nlri {
            Some(nlri) => Some(afi_code(nlri.afi)),
            None => None,
        },
        mp_reach_safi: match a.reachable_nlri {
            Some(nlri) => Some(safi_code(nlri.safi)),
            None => None,
        },
        mp_unreach_afi: match a.unreachable_nlri {
            Some(nlri) => Some(afi_code(nlri.afi)),
            None => None,
        },
        mp_unreach_safi: match a.unreachable_nlri {
            Some(nlri) => Some(safi_code(nlri.safi)),
            None => None,
        },
    }
}

/// Each prefix of `prefixes` with the direction `announced`.
pub open spec fn tagged(prefixes: Seq<NetworkPrefix>, announced: bool) -> Seq<
    (NetworkPrefix, bool),
> {
    prefixes.map_values(|p: NetworkPrefix| (p, announced))
}

/// The prefixes of an optional NLRI attribute.
pub open spec fn nlri_prefixes(nlri: Option<Nlri>) -> Seq<NetworkPrefix> {
    match nlri {
        Some(n) => n.prefixes@,
        None => Seq::empty(),
    }
}

/// The prefixes of an UPDATE with their directions, in the order in which
/// their records are emitted: announced, withdrawn, MP_REACH_NLRI
/// (announced), MP_UNREACH_NLRI (withdrawn); within each group as the parser
/// gave them.
pub open spec fn prefixes_to_update(m: BgpUpdateMessage) -> Seq<(NetworkPrefix, bool)> {
    tagged(m.announced_prefixes@, true) + tagged(m.withdrawn_prefixes@, false) + tagged(
        nlri_prefixes(m.attributes.reachable_nlri),
        true,
    ) + tagged(nlri_prefixes(m.attributes.unreachable_nlri), false)
}

/// The record decoded at time `now` for one prefix of an UPDATE whose
/// attributes are `path`: every address in its 128-bit form, the header's
/// time where it names an instant and `now` otherwise, not synthetic.
pub open spec fn decoded_update(
    metadata: UpdateMetadata,
    path: PathModel,
    prefix: NetworkPrefix,
    announced: bool,
    now: i64,
) -> UpdateModel {
    UpdateModel {
        time_received_ns: now,
        time_bmp_header_ns: header_time_of(
            metadata.time_bmp_header_ns,
            representable_millis(metadata.time_bmp_header_ns),
            now,
        ),
        router_addr: metadata.router_socket.ip.mapped(),
        router_port: metadata.router_socket.port,
        peer_addr: metadata.peer_addr.mapped(),
        peer_bgp_id: metadata.peer_bgp_id,
        peer_asn: metadata.peer_asn,
        prefix_addr: prefix.addr.mapped(),
        prefix_len: prefix.len,
        is_post_policy: metadata.is_post_policy,
        is_adj_rib_out: metadata.is_adj_rib_out,
        announced,
        synthetic: false,
        path,
    }
}

/// The records decoded at time `now` from a RouteMonitoring message: none
/// where the message carries no UPDATE or the UPDATE no prefix, else one per
/// prefix in the order of [`prefixes_to_update`].
pub open spec fn decoded_updates(
    message: RouteMonitoring,
    metadata: UpdateMetadata,
    now: i64,
) -> Option<Seq<UpdateModel>> {
    match message.bgp_message {
        BgpMessage::Update(m) => {
            let prefixes = prefixes_to_update(m);
            if prefixes.len() == 0 {
                None
            } else {
                Some(
                    prefixes.map_values(
                        |t: (NetworkPrefix, bool)|
                            decoded_update(metadata, path_of(m.attributes), t.0, t.1, now),
                    ),
                )
            }
        },
        _ => None,
    }
}

/// The mathematical values of a list of records.
pub open spec fn update_models(updates: Seq<Update>) -> Seq<UpdateModel> {
    updates.map_values(|u: Update| u@)
}

/// The mathematical values of an optional list of records.
pub open spec fn optional_update_models(updates: Option<Vec<Update>>) -> Option<Seq<UpdateModel>> {
    match updates {
        Some(v) => Some(update_models(v@)),
        None => None,
    }
}

/// A record with another prefix and direction.
pub open spec fn with_prefix(u: UpdateModel, prefix: NetworkPrefix, announced: bool) -> UpdateModel {
    UpdateModel { prefix_addr: prefix.addr.mapped(), prefix_len: prefix.len, announced, ..u }
}

/// Appends one copy of `base` per prefix, with that prefix and direction.
fn push_group(out: &mut Vec<Update>, base: &Update, prefixes: &Vec<NetworkPrefix>, announced: bool)
    ensures
        update_models(final(out)@) == update_models(old(out)@) + tagged(
            prefixes@,
            announced,
        ).map_values(|t: (NetworkPrefix, bool)| with_prefix(base@, t.0, t.1)),
{
    let ghost before = update_models(out@);
    let ghost group = tagged(prefixes@, announced).map_values(
        |t: (NetworkPrefix, bool)| with_prefix(base@, t.0, t.1),
    );
    let mut i: usize = 0;
    assert(update_models(out@) =~= before + group.take(0));
    while i < prefixes.len()
        invariant
            i <= prefixes@.len(),
            group == tagged(prefixes@, announced).map_values(
                |t: (NetworkPrefix, bool)| with_prefix(base@, t.0, t.1),
            ),
            update_models(out@) == before + group.take(i as int),
        decreases prefixes@.len() - i,
    {
        let mut u = base.clone();
        u.prefix_addr = map_to_ipv6(prefixes[i].addr);
        u.prefix_len = prefixes[i].len;
        u.announced = announced;
        assert(u@ == group[i as int]);
        let ghost models = update_models(out@);
        out.push(u);
        assert(update_models(out@) =~= models.push(u@));
        assert(group.take(i as int).push(group[i as int]) =~= group.take(i + 1));
        assert(before + group.take(i + 1) =~= (before + group.take(i as int)).push(
            group[i as int],
        ));
        i += 1;
    }
    assert(group.take(group.len() as int) =~= group);
}

/// Decodes a RouteMonitoring message at the time `now`.
///
/// The result holds one record per prefix, in the fixed order of the four
/// groups. Every record carries the same path attributes, has its router,
/// peer, prefix and next-hop addresses in 128-bit form, and is not synthetic.
/// There is no result where the message carries no UPDATE or no prefix.
pub fn decode_updates_at(message: RouteMonitoring, metadata: UpdateMetadata, now: i64) -> (r:
    Option<Vec<Update>>)
    ensures
        optional_update_models(r) == decoded_updates(message, metadata, now),
        r matches Some(v) ==> forall|i: int|
            0 <= i < v@.len() ==> {
                &&& (#[trigger] v@[i]).router_addr is V6
                &&& v@[i].peer_addr is V6
                &&& v@[i].prefix_addr is V6
                &&& v@[i].next_hop matches Some(hop) ==> hop is V6
                &&& !v@[i].synthetic
            },
{
    let RouteMonitoring { bgp_message } = message;
    match bgp_message {
        BgpMessage::Update(m) => {
            let ghost spec_prefixes = prefixes_to_update(m);
            let ghost path = path_of(m.attributes);
            let BgpUpdateMessage { withdrawn_prefixes, announced_prefixes, attributes } = m;
            let Attributes {
                origin,
                as_path,
                next_hop,
                multi_exit_discriminator,
                local_preference,
                only_to_customer,
                atomic_aggregate,
                aggregator,
                communities,
                origin_id,
                clusters,
                reachable_nlri,
                unreachable_nlri,
            } = attributes;
            let base = Update {
                time_received_ns: now,
                time_bmp_header_ns: header_time(metadata.time_bmp_header_ns, now),
                router_addr: map_to_ipv6(metadata.router_socket.ip),
                router_port: metadata.router_socket.port,
                peer_addr: map_to_ipv6(metadata.peer_addr),
                peer_bgp_id: metadata.peer_bgp_id,
                peer_asn: metadata.peer_asn,
                prefix_addr: IpAddress::V4(0),
                prefix_len: 0,
                is_post_policy: metadata.is_post_policy,
                is_adj_rib_out: metadata.is_adj_rib_out,
                announced: false,
                synthetic: false,
                origin: origin_name(origin),
                as_path: new_path(as_path),
                next_hop: match next_hop {
                    Some(hop) => Some(map_to_ipv6(hop)),
                    None => None,
                },
                multi_exit_discriminator,
                local_preference,
                only_to_customer,
                atomic_aggregate,
                aggregator_asn: match aggregator {
                    Some(pair) => Some(pair.0),
                    None => None,
                },
                aggregator_bgp_id: match aggregator {
                    Some(pair) => Some(pair.1),
                    None => None,
                },
                communities: new_communities(communities.as_slice()),
                extended_communities: extract_extended_communities(communities.as_slice()),
                large_communities: extract_large_communities(communities.as_slice()),
                originator_id: origin_id,
                cluster_list: match clusters {
                    Some(list) => list,
                    None => Vec::new(),
                },
                mp_reach_afi: match &reachable_nlri {
                    Some(nlri) => Some(afi_number(nlri.afi)),
                    None => None,
                },
                mp_reach_safi: match &reachable_nlri {
                    Some(nlri) => Some(safi_number(nlri.safi)),
                    None => None,
                },
                mp_unreach_afi: match &unreachable_nlri {
                    Some(nlri) => Some(afi_number(nlri.afi)),
                    None => None,
                },
                mp_unreach_safi: match &unreachable_nlri {
                    Some(nlri) => Some(safi_number(nlri.safi)),
                    None => None,
                },
            };
            assert(base.path() == path);
            let mut out: Vec<Update> = Vec::new();
            push_group(&mut out, &base, &announced_prefixes, true);
            push_group(&mut out, &base, &withdrawn_prefixes, false);
            match &reachable_nlri {
                Some(nlri) => push_group(&mut out, &base, &nlri.prefixes, true),
                None => {},
            }
            match &unreachable_nlri {
                Some(nlri) => push_group(&mut out, &base, &nlri.prefixes, false),
                None => {},
            }
            proof {
                let f = |t: (NetworkPrefix, bool)| with_prefix(base@, t.0, t.1);
                let g = |t: (NetworkPrefix, bool)| decoded_update(metadata, path, t.0, t.1, now);
                assert(update_models(out@) =~= spec_prefixes.map_values(f));
                assert(spec_prefixes.map_values(f) =~= spec_prefixes.map_values(g));
                assert forall|i: int| 0 <= i < out@.len() implies {
                    &&& (#[trigger] out@[i]).router_addr is V6
                    &&& out@[i].peer_addr is V6
                    &&& out@[i].prefix_addr is V6
                    &&& out@[i].next_hop matches Some(hop) ==> hop is V6
                    &&& !out@[i].synthetic
                } by {
                    assert(update_models(out@)[i] == out@[i]@);
                    assert(out@[i]@ == g(spec_prefixes[i]));
                }
            }
            if out.len() == 0 {
                None
            } else {
                Some(out)
            }
        },
        _ => None,
    }
}

/// Decodes a RouteMonitoring message at the current time.
///
/// The result is what [`decode_updates_at`] gives for the time that the clock
/// showed during the call.
pub fn decode_updates(message: RouteMonitoring, metadata: UpdateMetadata) -> (r: Option<
    Vec<Update>,
>)
    ensures
        exists|now: i64| optional_update_models(r) == decoded_updates(message, metadata, now),
        r matches Some(v) ==> forall|i: int|
            0 <= i < v@.len() ==> {
                &&& (#[trigger] v@[i]).router_addr is V6
                &&& v@[i].peer_addr is V6
                &&& v@[i].prefix_addr is V6
                &&& v@[i].next_hop matches Some(hop) ==> hop is V6
                &&& !v@[i].synthetic
            },
{
    let now = now_millis();
    decode_updates_at(message, metadata, now)
}

/// The flags that a per-peer header gives a record: those of an ordinary
/// peer as they are, none for a local RIB instance.
pub open spec fn policy_flags(flags: PerPeerFlags) -> (bool, bool) {
    match flags {
        PerPeerFlags::PeerFlags { is_post_policy, is_adj_rib_out } => (
            is_post_policy,
            is_adj_rib_out,
        ),
        PerPeerFlags::LocalRibPeerFlags => (false, false),
    }
}

/// What the connection `socket` and a per-peer header say of a message.
pub open spec fn metadata_of(socket: SocketAddress, header: PerPeerHeader) -> UpdateMetadata {
    UpdateMetadata {
        time_bmp_header_ns: header.timestamp_millis,
        router_socket: socket,
        peer_addr: header.peer_ip,
        peer_bgp_id: header.peer_bgp_id,
        peer_asn: header.peer_asn,
        is_post_policy: policy_flags(header.peer_flags).0,
        is_adj_rib_out: policy_flags(header.peer_flags).1,
    }
}

/// What the connection `socket` and the per-peer header of a message say of
/// it; nothing where there is no per-peer header.
pub open spec fn optional_metadata(socket: SocketAddress, header: Option<PerPeerHeader>) -> Option<
    UpdateMetadata,
> {
    match header {
        Some(h) => Some(metadata_of(socket, h)),
        None => None,
    }
}

/// What the connection `socket` and the per-peer header of `message` say of
/// the message; nothing where the message has no per-peer header.
pub fn new_metadata(socket: SocketAddress, message: &BmpMessage) -> (r: Option<UpdateMetadata>)
    ensures
        r == optional_metadata(socket, message.per_peer_header),
{
    match message.per_peer_header {
        Some(header) => {
            let (is_post_policy, is_adj_rib_out) = match header.peer_flags {
                PerPeerFlags::PeerFlags { is_post_policy, is_adj_rib_out } => (
                    is_post_policy,
                    is_adj_rib_out,
                ),
                PerPeerFlags::LocalRibPeerFlags => (false, false),
            };
            Some(
                UpdateMetadata {
                    time_bmp_header_ns: header.timestamp_millis,
                    router_socket: socket,
                    peer_addr: header.peer_ip,
                    peer_bgp_id: header.peer_bgp_id,
                    peer_asn: header.peer_asn,
                    is_post_policy,
                    is_adj_rib_out,
                },
            )
        },
        None => None,
    }
}

} // verus!
