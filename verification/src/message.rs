//! The parsed form of a BMP message, as plain values.
//!
//! A BMP parser yields a per-peer header and a typed body. These types hold
//! what the collector reads of them: addresses as [`IpAddress`], AS numbers
//! and BGP identifiers as `u32`, the per-peer timestamp in milliseconds.

use crate::addr::IpAddress;
use bgpkit_parser::models::AsPathSegment as ParserSegment;
use vstd::prelude::*;

verus! {

/// The flags of a per-peer header.
#[derive(Clone, Copy, Debug, PartialEq, Eq, Structural)]
pub enum PerPeerFlags {
    /// Flags of an ordinary peer.
    PeerFlags { is_post_policy: bool, is_adj_rib_out: bool },
    /// Flags of a local RIB instance, which has neither policy stage nor
    /// direction.
    LocalRibPeerFlags,
}

/// The BMP per-peer header: which BGP peer a message concerns.
#[derive(Clone, Copy, Debug, PartialEq, Eq, Structural)]
pub struct PerPeerHeader {
    pub peer_flags: PerPeerFlags,
    pub peer_ip: IpAddress,
    pub peer_asn: u32,
    pub peer_bgp_id: u32,
    /// The header's timestamp, in milliseconds since the Unix epoch.
    pub timestamp_millis: i64,
}

/// A network prefix: an address and the number of leading bits that count.
#[derive(Clone, Copy, Debug, PartialEq, Eq, Structural)]
pub struct NetworkPrefix {
    pub addr: IpAddress,
    pub len: u8,
}

/// The BGP ORIGIN attribute.
#[derive(Clone, Copy, Debug, PartialEq, Eq, Structural)]
pub enum Origin {
    Igp,
    Egp,
    Incomplete,
}

/// One segment of an AS path.
#[derive(Clone, Debug)]
pub enum AsPathSegment {
    AsSequence(Vec<u32>),
    AsSet(Vec<u32>),
    ConfedSequence(Vec<u32>),
    ConfedSet(Vec<u32>),
}

/// The mathematical value of an AS path segment.
pub enum SegmentModel {
    AsSequence(Seq<u32>),
    AsSet(Seq<u32>),
    ConfedSequence(Seq<u32>),
    ConfedSet(Seq<u32>),
}

impl View for AsPathSegment {
    type V = SegmentModel;

    open spec fn view(&self) -> SegmentModel {
        match *self {
            AsPathSegment::AsSequence(v) => SegmentModel::AsSequence(v@),
            AsPathSegment::AsSet(v) => SegmentModel::AsSet(v@),
            AsPathSegment::ConfedSequence(v) => SegmentModel::ConfedSequence(v@),
            AsPathSegment::ConfedSet(v) => SegmentModel::ConfedSet(v@),
        }
    }
}

/// The AS numbers of the AS_SEQUENCE segments of a path, in order. Segments
/// of every other kind add nothing.
pub open spec fn flatten_sequences(segments: Seq<SegmentModel>) -> Seq<u32>
    decreases segments.len(),
{
    if segments.len() == 0 {
        Seq::empty()
    } else {
        let before = flatten_sequences(segments.drop_last());
        match segments.last() {
            SegmentModel::AsSequence(asns) => before + asns,
            _ => before,
        }
    }
}

/// The AS path of bgpkit-parser, which the collector keeps as the parser
/// built it and reads through [`path_segments`].
#[verifier::external_type_specification]
#[verifier::external_body]
pub struct ExAsPath(bgpkit_parser::models::AsPath);

/// The segments that an AS path of bgpkit-parser holds, in order.
pub uninterp spec fn path_segments(path: bgpkit_parser::models::AsPath) -> Seq<SegmentModel>;

/// The segments that `AsPath::coalesce` of bgpkit-parser leaves of a path
/// that held `segments`.
pub uninterp spec fn coalesced_segments(segments: Seq<SegmentModel>) -> Seq<SegmentModel>;

/// `AsPath::coalesce` of bgpkit-parser merges neighbouring segments in
/// place. The segments it leaves depend on the segments it found alone, and
/// are what [`coalesced_segments`] stands for. It joins a sequence to the
/// sequence before it and drops empty sequences, so that the AS numbers of
/// the AS_SEQUENCE segments stay what they were, in their order.
pub assume_specification[ bgpkit_parser::models::AsPath::coalesce ](
    path: &mut bgpkit_parser::models::AsPath,
)
    ensures
        path_segments(*final(path)) == coalesced_segments(path_segments(*old(path))),
        flatten_sequences(path_segments(*final(path))) == flatten_sequences(
            path_segments(*old(path)),
        ),
;

/// The mathematical values of a list of segments.
pub open spec fn segment_models(segments: Seq<AsPathSegment>) -> Seq<SegmentModel> {
    Seq::new(segments.len(), |i: int| segments[i]@)
}

/// Reads the segments of an AS path of bgpkit-parser through
/// `AsPath::iter_segments`, each AS number through `Asn::to_u32`.
#[verifier::external_body]
pub(crate) fn segments_of(path: &bgpkit_parser::models::AsPath) -> (r: Vec<AsPathSegment>)
    ensures
        segment_models(r@) == path_segments(*path),
{
    path.iter_segments().map(|segment| match segment {
        ParserSegment::AsSequence(v) => AsPathSegment::AsSequence(v.iter().map(|a| a.to_u32()).collect()),
        ParserSegment::AsSet(v) => AsPathSegment::AsSet(v.iter().map(|a| a.to_u32()).collect()),
        ParserSegment::ConfedSequence(v) => AsPathSegment::ConfedSequence(v.iter().map(|a| a.to_u32()).collect()),
        ParserSegment::ConfedSet(v) => AsPathSegment::ConfedSet(v.iter().map(|a| a.to_u32()).collect()),
    }).collect()
}

/// A standard community.
#[derive(Clone, Copy, Debug, PartialEq, Eq, Structural)]
pub enum Community {
    NoExport,
    NoAdvertise,
    NoExportSubConfed,
    Custom(u32, u16),
}

/// A large community.
#[derive(Clone, Copy, Debug, PartialEq, Eq, Structural)]
pub struct LargeCommunity {
    pub global_admin: u32,
    pub local_data1: u32,
    pub local_data2: u32,
}

/// The type of an extended community whose layout is known.
#[derive(Clone, Copy, Debug, PartialEq, Eq, Structural)]
pub enum ExtendedCommunityType {
    TransitiveTwoOctetAs,
    TransitiveIpv4Addr,
    TransitiveFourOctetAs,
    TransitiveOpaque,
    NonTransitiveTwoOctetAs,
    NonTransitiveIpv4Addr,
    NonTransitiveFourOctetAs,
    NonTransitiveOpaque,
}

/// An eight-octet extended community.
#[allow(inconsistent_fields)]
#[derive(Clone, Copy, Debug)]
pub enum ExtendedCommunity {
    /// A two-octet AS number and four octets of local data.
    TwoOctetAs { transitive: bool, subtype: u8, global_admin: u32, local_admin: [u8; 4] },
    /// An IPv4 address and two octets of local data.
    Ipv4Addr { transitive: bool, subtype: u8, global_admin: u32, local_admin: [u8; 2] },
    /// A four-octet AS number and two octets of local data.
    FourOctetAs { transitive: bool, subtype: u8, global_admin: u32, local_admin: [u8; 2] },
    /// Six opaque octets.
    Opaque { transitive: bool, subtype: u8, value: [u8; 6] },
    /// A community of a type without a known layout, as its eight octets.
    Raw([u8; 8]),
}

/// A twenty-octet IPv6-address-specific extended community.
#[derive(Clone, Copy, Debug)]
pub struct Ipv6AddrExtCommunity {
    pub community_type: u8,
    pub subtype: u8,
    pub global_admin: u128,
    pub local_admin: [u8; 2],
}

/// A community of any of the kinds that a BGP UPDATE carries.
#[derive(Clone, Copy, Debug)]
pub enum MetaCommunity {
    Plain(Community),
    Extended(ExtendedCommunity),
    Ipv6Extended(Ipv6AddrExtCommunity),
    Large(LargeCommunity),
}

/// An address family.
#[derive(Clone, Copy, Debug, PartialEq, Eq, Structural)]
pub enum Afi {
    Ipv4,
    Ipv6,
}

/// A subsequent address family.
#[derive(Clone, Copy, Debug, PartialEq, Eq, Structural)]
pub enum Safi {
    Unicast,
    Multicast,
    UnicastMulticast,
}

/// The prefixes of an MP_REACH_NLRI or MP_UNREACH_NLRI attribute.
#[derive(Clone, Debug)]
pub struct Nlri {
    pub afi: Afi,
    pub safi: Safi,
    pub prefixes: Vec<NetworkPrefix>,
}

/// The path attributes of a BGP UPDATE.
#[derive(Clone, Debug)]
pub struct Attributes {
    pub origin: Origin,
    pub as_path: Option<bgpkit_parser::models::AsPath>,
    pub next_hop: Option<IpAddress>,
    pub multi_exit_discriminator: Option<u32>,
    pub local_preference: Option<u32>,
    pub only_to_customer: Option<u32>,
    pub atomic_aggregate: bool,
    /// The aggregator's AS number and BGP identifier.
    pub aggregator: Option<(u32, u32)>,
    pub communities: Vec<MetaCommunity>,
    pub origin_id: Option<u32>,
    pub clusters: Option<Vec<u32>>,
    pub reachable_nlri: Option<Nlri>,
    pub unreachable_nlri: Option<Nlri>,
}

/// A BGP UPDATE message.
#[derive(Clone, Debug)]
pub struct BgpUpdateMessage {
    pub withdrawn_prefixes: Vec<NetworkPrefix>,
    pub announced_prefixes: Vec<NetworkPrefix>,
    pub attributes: Attributes,
}

/// A BGP message, of which only an UPDATE carries routes.
#[derive(Clone, Debug)]
pub enum BgpMessage {
    Open,
    Update(BgpUpdateMessage),
    Notification,
    KeepAlive,
}

/// The body of a BMP RouteMonitoring message.
#[derive(Clone, Debug)]
pub struct RouteMonitoring {
    pub bgp_message: BgpMessage,
}

/// The typed body of a BMP message.
#[derive(Clone, Debug)]
pub enum BmpMessageBody {
    InitiationMessage,
    PeerUpNotification,
    RouteMonitoring(RouteMonitoring),
    RouteMirroring,
    PeerDownNotification,
    TerminationMessage,
    StatsReport,
}

/// A parsed BMP message.
#[derive(Clone, Debug)]
pub struct BmpMessage {
    pub per_peer_header: Option<PerPeerHeader>,
    pub message_body: BmpMessageBody,
}

impl Attributes {
    /// Attributes of an UPDATE that carries none: the origin is
    /// `Incomplete` and everything else is absent.
    pub fn empty() -> (r: Attributes)
        ensures
            r.origin == Origin::Incomplete,
            r.as_path is None,
            r.next_hop is None,
            r.multi_exit_discriminator is None,
            r.local_preference is None,
            r.only_to_customer is None,
            !r.atomic_aggregate,
            r.aggregator is None,
            r.communities@.len() == 0,
            r.origin_id is None,
            r.clusters is None,
            r.reachable_nlri is None,
            r.unreachable_nlri is None,
    {
        Attributes {
            origin: Origin::Incomplete,
            as_path: None,
            next_hop: None,
            multi_exit_discriminator: None,
            local_preference: None,
            only_to_customer: None,
            atomic_aggregate: false,
            aggregator: None,
            communities: Vec::new(),
            origin_id: None,
            clusters: None,
            reachable_nlri: None,
            unreachable_nlri: None,
        }
    }
}

} // verus!
