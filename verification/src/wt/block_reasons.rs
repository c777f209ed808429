//! Why the transport takes nothing on a stream.

use vstd::prelude::*;

verus! {

/// What keeps a stream from being written.
#[derive(Clone, Copy, Debug, PartialEq, Eq, Structural)]
pub struct StreamSendBlockReasons {
    /// The credit of the stream is used up.
    pub stream_flow_control: bool,
    /// The credit of the connection is used up.
    pub connection_flow_control: bool,
    /// The congestion window is full.
    pub congestion_control: bool,
    /// There is no path to the peer.
    pub active_path_unavailable: bool,
    /// The share of the congestion window that this end uses is full.
    pub send_capacity_factor: bool,
    /// The transport keeps as many sent bytes as it may.
    pub stream_send_retention: bool,
}

/// What has to happen before a blocked write can be tried again.
#[derive(Clone, Copy, Debug, PartialEq, Eq, Structural)]
pub enum StreamSendRetryDisposition {
    /// The transport tells when the stream can be written.
    WaitForTransportWritable,
    /// Something has to change of which the transport does not tell.
    StateChangeRequired,
}

impl StreamSendBlockReasons {
    /// No reason at all.
    pub open spec fn none() -> StreamSendBlockReasons {
        StreamSendBlockReasons {
            stream_flow_control: false,
            connection_flow_control: false,
            congestion_control: false,
            active_path_unavailable: false,
            send_capacity_factor: false,
            stream_send_retention: false,
        }
    }

    /// No reason at all.
    pub fn empty() -> (reasons: Self)
        ensures
            reasons == StreamSendBlockReasons::none(),
    {
        StreamSendBlockReasons {
            stream_flow_control: false,
            connection_flow_control: false,
            congestion_control: false,
            active_path_unavailable: false,
            send_capacity_factor: false,
            stream_send_retention: false,
        }
    }

    /// Whether there is a reason.
    pub fn any(&self) -> (any: bool)
        ensures
            any == (*self != StreamSendBlockReasons::none()),
    {
        self.stream_flow_control || self.connection_flow_control || self.congestion_control
            || self.active_path_unavailable || self.send_capacity_factor
            || self.stream_send_retention
    }

    /// The reasons of whose end the transport does not tell.
    pub open spec fn silent(self) -> StreamSendBlockReasons {
        StreamSendBlockReasons {
            stream_flow_control: false,
            connection_flow_control: false,
            congestion_control: false,
            ..self
        }
    }

    /// The reasons of whose end the transport does not tell.
    pub fn state_change_reasons(&self) -> (reasons: Self)
        ensures
            reasons == self.silent(),
    {
        StreamSendBlockReasons {
            stream_flow_control: false,
            connection_flow_control: false,
            congestion_control: false,
            ..*self
        }
    }

    /// What has to happen before a blocked write can be tried again.
    pub open spec fn remedy(self) -> StreamSendRetryDisposition {
        if self.silent() == StreamSendBlockReasons::none() {
            StreamSendRetryDisposition::WaitForTransportWritable
        } else {
            StreamSendRetryDisposition::StateChangeRequired
        }
    }

    /// What has to happen before a blocked write can be tried again.
    pub fn retry_disposition(&self) -> (disposition: StreamSendRetryDisposition)
        ensures
            disposition == self.remedy(),
    {
        if self.state_change_reasons().any() {
            StreamSendRetryDisposition::StateChangeRequired
        } else {
            StreamSendRetryDisposition::WaitForTransportWritable
        }
    }
}

} // verus!
