//! What is recorded when a connection ends.

use vstd::prelude::*;

verus! {

/// HTTP/3 error code: no error.
pub const H3_NO_ERROR: u64 = 0x100;

/// HTTP/3 error code: the peer causes too much load.
pub const H3_EXCESSIVE_LOAD: u64 = 0x107;

/// HTTP/3 error code: a request was not processed.
pub const H3_REQUEST_REJECTED: u64 = 0x10b;

/// HTTP/3 error code: a request is no longer needed.
pub const H3_REQUEST_CANCELLED: u64 = 0x10c;

/// HTTP/3 error code: a message was malformed.
pub const H3_MESSAGE_ERROR: u64 = 0x10e;

/// Why a driver cannot go on.
#[derive(Clone, Copy, Debug, PartialEq, Eq, Structural)]
pub enum H3ConnectionError {
    /// The application does not read events fast enough.
    EventQueueOverloaded,
    /// The application gave its controller up.
    ControllerWentAway,
    /// No request arrived in time.
    PostAcceptTimeout,
    /// The transport failed.
    TransportFailed,
}

/// The error that one end closed a connection with.
#[derive(Clone, Copy, Debug, PartialEq, Eq, Structural)]
pub struct ConnectionError {
    /// Whether the application closed it, and not the transport.
    pub is_app: bool,
    pub error_code: u64,
}

/// Counters of how connections ended.
#[derive(Clone, Copy, Debug, PartialEq, Eq, Structural)]
pub struct CloseMetrics {
    pub local_h3: u64,
    pub local_quic: u64,
    pub peer_h3: u64,
    pub peer_quic: u64,
}

/// A counter after one more event. It stops at its largest value.
pub open spec fn bumped(counter: u64) -> u64 {
    if counter < u64::MAX {
        (counter + 1) as u64
    } else {
        counter
    }
}

/// Counts one more event.
pub fn bump(counter: u64) -> (next: u64)
    ensures
        next == bumped(counter),
{
    if counter < u64::MAX {
        counter + 1
    } else {
        counter
    }
}

impl CloseMetrics {
    /// Counters of connections that have not ended yet.
    pub fn new() -> (metrics: Self)
        ensures
            metrics == (CloseMetrics { local_h3: 0, local_quic: 0, peer_h3: 0, peer_quic: 0 }),
    {
        CloseMetrics { local_h3: 0, local_quic: 0, peer_h3: 0, peer_quic: 0 }
    }

    /// The counters after a connection ended: a failed one counts the error of
    /// this end, any other one the error of the peer, each by the layer that it
    /// came from.
    pub open spec fn recorded(
        self,
        failed: bool,
        local: Option<ConnectionError>,
        peer: Option<ConnectionError>,
    ) -> CloseMetrics {
        if failed {
            match local {
                Some(error) => if error.is_app {
                    CloseMetrics { local_h3: bumped(self.local_h3), ..self }
                } else {
                    CloseMetrics { local_quic: bumped(self.local_quic), ..self }
                },
                None => self,
            }
        } else {
            match peer {
                Some(error) => if error.is_app {
                    CloseMetrics { peer_h3: bumped(self.peer_h3), ..self }
                } else {
                    CloseMetrics { peer_quic: bumped(self.peer_quic), ..self }
                },
                None => self,
            }
        }
    }

    /// Records the end of a connection.
    pub fn record(
        &mut self,
        failed: bool,
        local: Option<ConnectionError>,
        peer: Option<ConnectionError>,
    )
        ensures
            *final(self) == old(self).recorded(failed, local, peer),
    {
        if failed {
            if let Some(error) = local {
                if error.is_app {
                    self.local_h3 = bump(self.local_h3);
                } else {
                    self.local_quic = bump(self.local_quic);
                }
            }
        } else {
            if let Some(error) = peer {
                if error.is_app {
                    self.peer_h3 = bump(self.peer_h3);
                } else {
                    self.peer_quic = bump(self.peer_quic);
                }
            }
        }
    }
}

/// The end of a connection is counted at most once, on the side and the layer
/// that it came from.
pub proof fn lemma_close_is_counted_once(
    metrics: CloseMetrics,
    failed: bool,
    local: Option<ConnectionError>,
    peer: Option<ConnectionError>,
)
    requires
        metrics.local_h3 < u64::MAX,
        metrics.local_quic < u64::MAX,
        metrics.peer_h3 < u64::MAX,
        metrics.peer_quic < u64::MAX,
    ensures
        ({
            let after = metrics.recorded(failed, local, peer);
            let total = after.local_h3 + after.local_quic + after.peer_h3 + after.peer_quic;
            let before = metrics.local_h3 + metrics.local_quic + metrics.peer_h3
                + metrics.peer_quic;
            &&& total == before + (if (failed && local is Some) || (!failed && peer is Some) {
                1int
            } else {
                0int
            })
            &&& failed ==> after.peer_h3 == metrics.peer_h3 && after.peer_quic == metrics.peer_quic
            &&& !failed ==> after.local_h3 == metrics.local_h3 && after.local_quic
                == metrics.local_quic
        }),
{
}

} // verus!
