//! The framing of a BMP stream.
//!
//! Every BMP message begins with a common header of six octets: the version,
//! the length of the whole message as a big-endian 32-bit number, and the
//! message type. A connection is read header by header: a header that breaks
//! a rule ends the connection, a sound one says how many octets to hand on.

use vstd::prelude::*;

verus! {

/// The length of the common header, which every message includes.
pub const HEADER_LEN: usize = 6;

/// The only version of BMP that is read.
pub const BMP_VERSION: u8 = 3;

/// The largest message type that is read.
pub const MAX_MESSAGE_TYPE: u8 = 6;

/// The common header of a BMP message.
#[derive(Clone, Copy, Debug, PartialEq, Eq, Structural)]
pub struct CommonHeader {
    pub version: u8,
    /// The length of the whole message, header included.
    pub length: u32,
    pub message_type: u8,
}

/// Why a header ends the connection.
#[derive(Clone, Copy, Debug, PartialEq, Eq, Structural)]
pub enum FramingError {
    /// The version is not 3.
    UnsupportedVersion(u8),
    /// The length is smaller than the header itself.
    InvalidLength(u32),
    /// The message type is larger than 6.
    UnsupportedType(u8),
    /// The length is beyond the limit that the collector was given.
    TooLong(u32),
}

/// The kinds of BMP message, by the number of their type.
#[derive(Clone, Copy, Debug, PartialEq, Eq, Structural)]
pub enum MessageType {
    RouteMonitoring,
    StatisticsReport,
    PeerDown,
    PeerUp,
    Initiation,
    Termination,
    RouteMirroring,
}

/// The 32-bit number that four octets spell, most significant first.
pub open spec fn be_u32(b0: u8, b1: u8, b2: u8, b3: u8) -> int {
    b0 as int * 0x100_0000 + b1 as int * 0x1_0000 + b2 as int * 0x100 + b3 as int
}

/// The header that six octets spell.
pub open spec fn header_of(octets: Seq<u8>) -> CommonHeader
    recommends
        octets.len() == 6,
{
    CommonHeader {
        version: octets[0],
        length: be_u32(octets[1], octets[2], octets[3], octets[4]) as u32,
        message_type: octets[5],
    }
}

/// What a header is found to be under the limit `max_length`: the first rule
/// that it breaks, in the order version, least length, type, limit; or
/// itself.
pub open spec fn verdict(header: CommonHeader, max_length: u32) -> Result<
    CommonHeader,
    FramingError,
> {
    if header.version != BMP_VERSION {
        Err(FramingError::UnsupportedVersion(header.version))
    } else if header.length < HEADER_LEN as u32 {
        Err(FramingError::InvalidLength(header.length))
    } else if header.message_type > MAX_MESSAGE_TYPE {
        Err(FramingError::UnsupportedType(header.message_type))
    } else if header.length > max_length {
        Err(FramingError::TooLong(header.length))
    } else {
        Ok(header)
    }
}

/// Reads the six octets of a common header.
pub fn parse_common_header(octets: &[u8; 6]) -> (header: CommonHeader)
    ensures
        header == header_of(octets@),
        be_u32(octets@[1], octets@[2], octets@[3], octets@[4]) <= u32::MAX,
{
    let length: u32 = (octets[1] as u32) * 0x100_0000 + (octets[2] as u32) * 0x1_0000 + (
    octets[3] as u32) * 0x100 + (octets[4] as u32);
    CommonHeader { version: octets[0], length, message_type: octets[5] }
}

/// Holds a header to the rules of framing under the limit `max_length`.
pub fn check_header(header: CommonHeader, max_length: u32) -> (r: Result<
    CommonHeader,
    FramingError,
>)
    ensures
        r == verdict(header, max_length),
{
    if header.version != BMP_VERSION {
        Err(FramingError::UnsupportedVersion(header.version))
    } else if header.length < 6 {
        Err(FramingError::InvalidLength(header.length))
    } else if header.message_type > MAX_MESSAGE_TYPE {
        Err(FramingError::UnsupportedType(header.message_type))
    } else if header.length > max_length {
        Err(FramingError::TooLong(header.length))
    } else {
        Ok(header)
    }
}

/// Reads the six octets of a common header and holds it to the rules.
pub fn check_common_header(octets: &[u8; 6], max_length: u32) -> (r: Result<
    CommonHeader,
    FramingError,
>)
    ensures
        r == verdict(header_of(octets@), max_length),
{
    check_header(parse_common_header(octets), max_length)
}

/// The kind of message that a type number names; none beyond 6.
pub open spec fn message_type_of(number: u8) -> Option<MessageType> {
    if number == 0 {
        Some(MessageType::RouteMonitoring)
    } else if number == 1 {
        Some(MessageType::StatisticsReport)
    } else if number == 2 {
        Some(MessageType::PeerDown)
    } else if number == 3 {
        Some(MessageType::PeerUp)
    } else if number == 4 {
        Some(MessageType::Initiation)
    } else if number == 5 {
        Some(MessageType::Termination)
    } else if number == 6 {
        Some(MessageType::RouteMirroring)
    } else {
        None
    }
}

/// The kind of message that a type number names.
pub fn message_type(number: u8) -> (r: Option<MessageType>)
    ensures
        r == message_type_of(number),
        r is Some <==> number <= MAX_MESSAGE_TYPE,
{
    match number {
        0 => Some(MessageType::RouteMonitoring),
        1 => Some(MessageType::StatisticsReport),
        2 => Some(MessageType::PeerDown),
        3 => Some(MessageType::PeerUp),
        4 => Some(MessageType::Initiation),
        5 => Some(MessageType::Termination),
        6 => Some(MessageType::RouteMirroring),
        _ => None,
    }
}

/// What to do after a look at the next six octets of a connection.
#[derive(Clone, Copy, Debug, PartialEq, Eq, Structural)]
pub enum FrameStep {
    /// The peer closed the connection: stop without an error.
    Closed,
    /// Fewer than six octets have arrived: look again.
    Retry,
    /// The header breaks a rule: end this connection.
    Fail(FramingError),
    /// Take this many octets, header included, as one message.
    Read(usize),
}

/// The step after a look that saw `peeked` octets, the header among them
/// once there are six.
pub open spec fn step_after(peeked: usize, octets: Seq<u8>, max_length: u32) -> FrameStep {
    if peeked == 0 {
        FrameStep::Closed
    } else if peeked != HEADER_LEN {
        FrameStep::Retry
    } else {
        match verdict(header_of(octets), max_length) {
            Ok(header) => FrameStep::Read(header.length as usize),
            Err(e) => FrameStep::Fail(e),
        }
    }
}

/// Decides the next step of a connection from a look at its next six octets,
/// of which `peeked` have arrived.
pub fn next_frame_step(peeked: usize, octets: &[u8; 6], max_length: u32) -> (step: FrameStep)
    ensures
        step == step_after(peeked, octets@, max_length),
        step matches FrameStep::Read(n) ==> HEADER_LEN <= n <= max_length,
{
    if peeked == 0 {
        FrameStep::Closed
    } else if peeked != HEADER_LEN {
        FrameStep::Retry
    } else {
        match check_common_header(octets, max_length) {
            Ok(header) => FrameStep::Read(header.length as usize),
            Err(e) => FrameStep::Fail(e),
        }
    }
}

/// How the reading of a stream ended.
#[derive(Clone, Copy, Debug, PartialEq, Eq, Structural)]
pub enum StreamEnd {
    /// The stream ended between messages or inside one: the peer closed.
    Closed,
    /// A header broke a rule.
    Failed(FramingError),
}

/// The six octets of a stream from `at` on.
pub open spec fn header_at(stream: Seq<u8>, at: int) -> Seq<u8> {
    stream.subrange(at, at + 6)
}

/// The messages of a stream from `at` on, each as where it begins and how
/// long it is, up to the first header that breaks a rule or the first
/// message that the stream does not hold in full.
pub open spec fn frames_from(stream: Seq<u8>, at: int, max_length: u32) -> Seq<(usize, usize)>
    decreases stream.len() - at,
{
    if at < 0 || at + 6 > stream.len() {
        Seq::empty()
    } else {
        match verdict(header_of(header_at(stream, at)), max_length) {
            Ok(header) => if at + header.length > stream.len() {
                Seq::empty()
            } else {
                seq![(at as usize, header.length as usize)] + frames_from(
                    stream,
                    at + header.length,
                    max_length,
                )
            },
            Err(_) => Seq::empty(),
        }
    }
}

/// How the reading of a stream from `at` on ends.
pub open spec fn end_from(stream: Seq<u8>, at: int, max_length: u32) -> StreamEnd
    decreases stream.len() - at,
{
    if at < 0 || at + 6 > stream.len() {
        StreamEnd::Closed
    } else {
        match verdict(header_of(header_at(stream, at)), max_length) {
            Ok(header) => if at + header.length > stream.len() {
                StreamEnd::Closed
            } else {
                end_from(stream, at + header.length, max_length)
            },
            Err(e) => StreamEnd::Failed(e),
        }
    }
}

/// Only sound messages are handed on. Whatever octets a connection delivers,
/// the messages taken from them lie one after the other from where reading
/// began, each lies within the stream, and each begins with a header that
/// keeps every rule and gives the length of the message.
pub proof fn law_frames_are_sound(stream: Seq<u8>, at: int, max_length: u32)
    requires
        0 <= at,
        stream.len() <= usize::MAX,
    ensures
        forall|i: int|
            0 <= i < frames_from(stream, at, max_length).len() ==> {
                let frame = #[trigger] frames_from(stream, at, max_length)[i];
                let header = header_of(header_at(stream, frame.0 as int));
                &&& verdict(header, max_length) == Ok::<CommonHeader, FramingError>(header)
                &&& frame.1 == header.length
                &&& at <= frame.0
                &&& frame.0 + frame.1 <= stream.len()
                &&& frame.0 == (if i == 0 {
                    at
                } else {
                    frames_from(stream, at, max_length)[i - 1].0 + frames_from(
                        stream,
                        at,
                        max_length,
                    )[i - 1].1
                })
            },
    decreases stream.len() - at,
{
    if at + 6 <= stream.len() {
        match verdict(header_of(header_at(stream, at)), max_length) {
            Ok(header) => {
                if at + header.length <= stream.len() {
                    let next = at + header.length;
                    law_frames_are_sound(stream, next, max_length);
                    let rest = frames_from(stream, next, max_length);
                    let all = frames_from(stream, at, max_length);
                    assert(all =~= seq![(at as usize, header.length as usize)] + rest);
                    assert forall|i: int| 0 <= i < all.len() implies {
                        let frame = #[trigger] all[i];
                        let h = header_of(header_at(stream, frame.0 as int));
                        &&& verdict(h, max_length) == Ok::<CommonHeader, FramingError>(h)
                        &&& frame.1 == h.length
                        &&& at <= frame.0
                        &&& frame.0 + frame.1 <= stream.len()
                        &&& frame.0 == (if i == 0 {
                            at
                        } else {
                            all[i - 1].0 + all[i - 1].1
                        })
                    } by {
                        if i > 0 {
                            assert(all[i] == rest[i - 1]);
                            if i > 1 {
                                assert(all[i - 1] == rest[i - 2]);
                            } else {
                                assert(all[0] == (at as usize, header.length as usize));
                            }
                        } else {
                            assert(all[0] == (at as usize, header.length as usize));
                        }
                    }
                }
            },
            Err(_) => {},
        }
    }
}

/// Splits the octets that a connection delivered into messages.
///
/// The messages come back in order, each as where it begins in the stream and
/// how long it is, header included. Reading stops without an error where the
/// stream ends, and with the error at the first header that breaks a rule;
/// the messages before it still count.
pub fn split_frames(stream: &[u8], max_length: u32) -> (r: (Vec<(usize, usize)>, StreamEnd))
    ensures
        r.0@ == frames_from(stream@, 0, max_length),
        r.1 == end_from(stream@, 0, max_length),
        forall|i: int|
            0 <= i < r.0@.len() ==> HEADER_LEN <= (#[trigger] r.0@[i]).1 && r.0@[i].0 + r.0@[i].1
                <= stream@.len(),
{
    let mut frames: Vec<(usize, usize)> = Vec::new();
    let mut at: usize = 0;
    let n = stream.len();
    loop
        invariant
            n == stream@.len(),
            at <= n,
            frames_from(stream@, 0, max_length) == frames@ + frames_from(
                stream@,
                at as int,
                max_length,
            ),
            end_from(stream@, 0, max_length) == end_from(stream@, at as int, max_length),
            forall|i: int|
                0 <= i < frames@.len() ==> HEADER_LEN <= (#[trigger] frames@[i]).1 && frames@[i].0
                    + frames@[i].1 <= stream@.len(),
        decreases n - at,
    {
        if n - at < 6 {
            assert(frames@ + Seq::<(usize, usize)>::empty() =~= frames@);
            return (frames, StreamEnd::Closed);
        }
        let octets: [u8; 6] = [
            stream[at],
            stream[at + 1],
            stream[at + 2],
            stream[at + 3],
            stream[at + 4],
            stream[at + 5],
        ];
        assert(octets@ =~= header_at(stream@, at as int));
        match check_common_header(&octets, max_length) {
            Err(e) => {
                assert(frames@ + Seq::<(usize, usize)>::empty() =~= frames@);
                return (frames, StreamEnd::Failed(e));
            },
            Ok(header) => {
                let len: usize = header.length as usize;
                if len > n - at {
                    assert(frames@ + Seq::<(usize, usize)>::empty() =~= frames@);
                    return (frames, StreamEnd::Closed);
                }
                proof {
                    let rest = frames_from(stream@, at + len, max_length);
                    assert(frames@ + (seq![(at, len)] + rest) =~= frames@.push((at, len)) + rest);
                }
                frames.push((at, len));
                at = at + len;
            },
        }
    }
}

} // verus!
