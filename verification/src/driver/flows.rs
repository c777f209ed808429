//! Datagram flows, and ending streams before their time.

use vstd::prelude::*;

use crate::conn_close::H3_NO_ERROR;
use crate::driver::state::{CoreState, FlowFrame, H3Core};
use crate::multicast::{optional_bytes, MulticastState};
use crate::table::{lookup, without};
use crate::transport::{Transport, TransportState};
use crate::wire::datagram::{datagram_bytes, encode_datagram};
use crate::wire::varint::MAX_VARINT;
use crate::wt::types::StreamAction;

verus! {

/// Which directions of a stream to end, and with what codes.
#[derive(Clone, Copy, Debug, PartialEq, Eq, Structural)]
pub enum StreamShutdown {
    /// Refuse what the peer sends.
    Read { error_code: u64 },
    /// Reset what this end sends.
    Write { error_code: u64 },
    /// Both.
    Both { read_error_code: u64, write_error_code: u64 },
}

impl CoreState {
    /// The state after a stream was refused on the application's demand.
    #[verifier::opaque]
    pub open spec fn read_shut(self, stream_id: u64, error_code: u64) -> CoreState {
        match lookup(self.streams, stream_id) {
            Some(stream) => if stream.live {
                self.performed(StreamAction::Stop { stream_id, error_code })
            } else {
                self
            },
            None => self,
        }
    }

    /// The state after a stream was reset on the application's demand.
    #[verifier::opaque]
    pub open spec fn write_shut(self, stream_id: u64, error_code: u64) -> CoreState {
        match lookup(self.streams, stream_id) {
            Some(stream) => if stream.live {
                let reset = self.performed(StreamAction::Reset { stream_id, error_code });
                if stream.session {
                    reset.session_send_over()
                } else {
                    reset
                }
            } else {
                self
            },
            None => self,
        }
    }

    /// The state after directions of a stream were ended on the application's
    /// demand. A stream that the driver does not track stays as it is.
    pub open spec fn stream_shut(self, stream_id: u64, shutdown: StreamShutdown) -> CoreState {
        match shutdown {
            StreamShutdown::Read { error_code } => self.read_shut(stream_id, error_code),
            StreamShutdown::Write { error_code } => self.write_shut(stream_id, error_code),
            StreamShutdown::Both { read_error_code, write_error_code } => self.read_shut(
                stream_id,
                read_error_code,
            ).write_shut(stream_id, write_error_code),
        }
    }

    /// Whether datagrams of flows leave on a multicast channel.
    pub open spec fn multicasts(self) -> bool {
        self.multicast.carries(optional_bytes(self.settings.multicast_datagram_channel_id))
    }

    /// The state after a datagram of a flow was sent: on the multicast channel
    /// where there is one that the peer receives, and otherwise to the peer
    /// alone, as far as its queue has room. A datagram of an unknown flow is
    /// dropped.
    #[verifier::opaque]
    pub open spec fn flow_sent(self, flow_id: u64, payload: Seq<u8>) -> CoreState {
        let bytes = datagram_bytes(flow_id, payload);
        if lookup(self.flows, flow_id) is None || flow_id > MAX_VARINT {
            self
        } else if self.multicasts() {
            CoreState {
                multicast: MulticastState {
                    sent: self.multicast.sent.push(bytes),
                    ..self.multicast
                },
                ..self
            }
        } else if self.transport.dgrams_queued.len() < Transport::dgram_room(self.transport) {
            CoreState {
                transport: TransportState {
                    dgrams_queued: self.transport.dgrams_queued.push(bytes),
                    ..self.transport
                },
                ..self
            }
        } else {
            self
        }
    }

    /// The state after what the application handed over for a flow was handled.
    pub open spec fn flow_frame_handled(self, frame: FlowFrame) -> CoreState {
        match frame {
            FlowFrame::Datagram { flow_id, payload } => self.flow_sent(flow_id, payload@),
            FlowFrame::Shutdown { flow_id, stream_id } => (CoreState {
                flows: without(self.flows, flow_id),
                ..self
            }).stream_shut(
                stream_id,
                StreamShutdown::Both {
                    read_error_code: H3_NO_ERROR,
                    write_error_code: H3_NO_ERROR,
                },
            ),
        }
    }

    /// The state after the frames of a list from index `from` on were handled.
    pub open spec fn flow_frames_handled(self, frames: Seq<FlowFrame>, from: int) -> CoreState
        decreases frames.len() - from,
    {
        if from < 0 || from >= frames.len() {
            self
        } else {
            self.flow_frame_handled(frames[from]).flow_frames_handled(frames, from + 1)
        }
    }

    /// The state after all that waited for the flows was handled.
    #[verifier::opaque]
    pub open spec fn flows_pumped(self) -> CoreState {
        (CoreState { flow_frames: Seq::empty(), ..self }).flow_frames_handled(self.flow_frames, 0)
    }
}

impl H3Core {
    fn shut_read(&mut self, stream_id: u64, error_code: u64)
        requires
            old(self).wf(),
        ensures
            final(self).wf(),
            final(self)@ == old(self)@.read_shut(stream_id, error_code),
    {
        proof {
            reveal(CoreState::read_shut);
        }
        if self.tracks(stream_id) {
            self.perform(StreamAction::Stop { stream_id, error_code });
        }
    }

    fn shut_write(&mut self, stream_id: u64, error_code: u64)
        requires
            old(self).wf(),
        ensures
            final(self).wf(),
            final(self)@ == old(self)@.write_shut(stream_id, error_code),
    {
        proof {
            reveal(CoreState::write_shut);
        }
        let (live, session) = match self.streams.get(stream_id) {
            Some(stream) => (stream.live, stream.session),
            None => (false, false),
        };
        if live {
            self.perform(StreamAction::Reset { stream_id, error_code });
            if session {
                self.end_session_sending();
            }
        }
    }

    /// Whether the driver tracks a stream.
    pub fn tracks(&self, stream_id: u64) -> (tracks: bool)
        ensures
            tracks == (lookup(self@.streams, stream_id) matches Some(stream) && stream.live),
    {
        match self.streams.get(stream_id) {
            Some(stream) => stream.live,
            None => false,
        }
    }

    /// Ends directions of a stream.
    pub fn shut_stream(&mut self, stream_id: u64, shutdown: StreamShutdown)
        requires
            old(self).wf(),
        ensures
            final(self).wf(),
            final(self)@ == old(self)@.stream_shut(stream_id, shutdown),
    {
        match shutdown {
            StreamShutdown::Read { error_code } => {
                self.shut_read(stream_id, error_code);
            },
            StreamShutdown::Write { error_code } => {
                self.shut_write(stream_id, error_code);
            },
            StreamShutdown::Both { read_error_code, write_error_code } => {
                self.shut_read(stream_id, read_error_code);
                self.shut_write(stream_id, write_error_code);
            },
        }
    }

    /// The application hands a frame over for a flow. Returns whether the flow
    /// is open; the frame of another one is dropped.
    pub fn send_on_flow(&mut self, frame: FlowFrame) -> (taken: bool)
        requires
            old(self).wf(),
        ensures
            final(self).wf(),
            ({
                let flow_id = match frame {
                    FlowFrame::Datagram { flow_id, .. } => flow_id,
                    FlowFrame::Shutdown { flow_id, .. } => flow_id,
                };
                &&& taken == (lookup(old(self)@.flows, flow_id) is Some)
                &&& final(self)@ == (if taken {
                    CoreState { flow_frames: old(self)@.flow_frames.push(frame), ..old(self)@ }
                } else {
                    old(self)@
                })
            }),
    {
        let flow_id: u64 = match &frame {
            FlowFrame::Datagram { flow_id, .. } => *flow_id,
            FlowFrame::Shutdown { flow_id, .. } => *flow_id,
        };
        if !self.flows.contains(flow_id) {
            return false;
        }
        self.flow_frames.push(frame);
        true
    }

    fn send_flow_datagram(&mut self, flow_id: u64, payload: Vec<u8>)
        requires
            old(self).wf(),
        ensures
            final(self).wf(),
            final(self)@ == old(self)@.flow_sent(flow_id, payload@),
    {
        proof {
            reveal(CoreState::flow_sent);
        }
        if !self.flows.contains(flow_id) || flow_id > MAX_VARINT {
            return;
        }
        let bytes = encode_datagram(flow_id, payload.as_slice());
        if self.multicast.takes_datagrams(&self.settings.multicast_datagram_channel_id) {
            self.multicast.send(bytes);
        } else {
            let _ = self.transport.send_dgram(bytes);
        }
    }

    fn handle_flow_frame(&mut self, frame: FlowFrame)
        requires
            old(self).wf(),
        ensures
            final(self).wf(),
            final(self)@ == old(self)@.flow_frame_handled(frame),
    {
        match frame {
            FlowFrame::Datagram { flow_id, payload } => {
                self.send_flow_datagram(flow_id, payload);
            },
            FlowFrame::Shutdown { flow_id, stream_id } => {
                let _ = self.flows.remove(flow_id);
                self.shut_stream(
                    stream_id,
                    StreamShutdown::Both {
                        read_error_code: H3_NO_ERROR,
                        write_error_code: H3_NO_ERROR,
                    },
                );
            },
        }
    }

    /// Handles all that waits for the flows.
    pub fn pump_flows(&mut self)
        requires
            old(self).wf(),
        ensures
            final(self).wf(),
            final(self)@ == old(self)@.flows_pumped(),
    {
        proof {
            reveal(CoreState::flows_pumped);
        }
        let mut frames: Vec<FlowFrame> = Vec::new();
        std::mem::swap(&mut frames, &mut self.flow_frames);
        let ghost all = frames@;
        let ghost target = self@.flow_frames_handled(all, 0);
        let ghost mut i: int = 0;
        assert(frames@ =~= all.skip(0));
        while frames.len() > 0
            invariant
                0 <= i,
                i + frames@.len() == all.len(),
                frames@ == all.skip(i),
                self.wf(),
                self@.flow_frames_handled(all, i) == target,
            decreases frames@.len(),
        {
            let frame = frames.remove(0);
            assert(frame == all[i]);
            assert(frames@ =~= all.skip(i + 1));
            self.handle_flow_frame(frame);
            proof {
                i = i + 1;
            }
        }
    }
}

} // verus!
