//! Counters of the BMP messages that the collector received.

use vstd::prelude::*;

verus! {

/// How many BMP messages were received, in all and of each kind. A counter
/// that has reached the largest number it can hold stays there.
#[derive(Clone, Copy, Debug, PartialEq, Eq, Structural)]
pub struct ProcessorStatistics {
    pub rx_bmp_messages: usize,
    pub rx_bmp_initiation: usize,
    pub rx_bmp_peer_up: usize,
    pub rx_bmp_route_monitoring: usize,
    pub rx_bmp_route_mirroring: usize,
    pub rx_bmp_peer_down: usize,
    pub rx_bmp_termination: usize,
    pub rx_bmp_stats_report: usize,
}

/// The kinds of BMP message that are counted.
#[derive(Clone, Copy, Debug, PartialEq, Eq, Structural)]
pub enum MessageKind {
    Initiation,
    PeerUp,
    RouteMonitoring,
    RouteMirroring,
    PeerDown,
    Termination,
    StatsReport,
}

/// A counter after one more message.
pub open spec fn bumped(count: usize) -> usize {
    if count < usize::MAX {
        (count + 1) as usize
    } else {
        count
    }
}

fn bump(count: usize) -> (r: usize)
    ensures
        r == bumped(count),
{
    if count < usize::MAX {
        count + 1
    } else {
        count
    }
}

impl ProcessorStatistics {
    /// The counters after one more message of the kind `kind`.
    pub open spec fn after(self, kind: MessageKind) -> ProcessorStatistics {
        let s = ProcessorStatistics { rx_bmp_messages: bumped(self.rx_bmp_messages), ..self };
        match kind {
            MessageKind::Initiation => ProcessorStatistics {
                rx_bmp_initiation: bumped(self.rx_bmp_initiation),
                ..s
            },
            MessageKind::PeerUp => ProcessorStatistics {
                rx_bmp_peer_up: bumped(self.rx_bmp_peer_up),
                ..s
            },
            MessageKind::RouteMonitoring => ProcessorStatistics {
                rx_bmp_route_monitoring: bumped(self.rx_bmp_route_monitoring),
                ..s
            },
            MessageKind::RouteMirroring => ProcessorStatistics {
                rx_bmp_route_mirroring: bumped(self.rx_bmp_route_mirroring),
                ..s
            },
            MessageKind::PeerDown => ProcessorStatistics {
                rx_bmp_peer_down: bumped(self.rx_bmp_peer_down),
                ..s
            },
            MessageKind::Termination => ProcessorStatistics {
                rx_bmp_termination: bumped(self.rx_bmp_termination),
                ..s
            },
            MessageKind::StatsReport => ProcessorStatistics {
                rx_bmp_stats_report: bumped(self.rx_bmp_stats_report),
                ..s
            },
        }
    }

    /// Counts one more message of the kind `kind`.
    pub fn record(&mut self, kind: MessageKind)
        ensures
            *final(self) == old(self).after(kind),
    {
        self.rx_bmp_messages = bump(self.rx_bmp_messages);
        match kind {
            MessageKind::Initiation => {
                self.rx_bmp_initiation = bump(self.rx_bmp_initiation);
            },
            MessageKind::PeerUp => {
                self.rx_bmp_peer_up = bump(self.rx_bmp_peer_up);
            },
            MessageKind::RouteMonitoring => {
                self.rx_bmp_route_monitoring = bump(self.rx_bmp_route_monitoring);
            },
            MessageKind::RouteMirroring => {
                self.rx_bmp_route_mirroring = bump(self.rx_bmp_route_mirroring);
            },
            MessageKind::PeerDown => {
                self.rx_bmp_peer_down = bump(self.rx_bmp_peer_down);
            },
            MessageKind::Termination => {
                self.rx_bmp_termination = bump(self.rx_bmp_termination);
            },
            MessageKind::StatsReport => {
                self.rx_bmp_stats_report = bump(self.rx_bmp_stats_report);
            },
        }
    }
}

impl Default for ProcessorStatistics {
    fn default() -> (r: ProcessorStatistics)
        ensures
            r == (ProcessorStatistics {
                rx_bmp_messages: 0,
                rx_bmp_initiation: 0,
                rx_bmp_peer_up: 0,
                rx_bmp_route_monitoring: 0,
                rx_bmp_route_mirroring: 0,
                rx_bmp_peer_down: 0,
                rx_bmp_termination: 0,
                rx_bmp_stats_report: 0,
            }),
    {
        ProcessorStatistics {
            rx_bmp_messages: 0,
            rx_bmp_initiation: 0,
            rx_bmp_peer_up: 0,
            rx_bmp_route_monitoring: 0,
            rx_bmp_route_mirroring: 0,
            rx_bmp_peer_down: 0,
            rx_bmp_termination: 0,
            rx_bmp_stats_report: 0,
        }
    }
}

} // verus!
