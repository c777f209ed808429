//! What the commands of the application come to, and what the beginning and the end of a
//! connection do, told by what was sent, the request streams and the events that wait.

use vstd::prelude::*;
use vstd::utf8::encode_utf8;

use crate::conn_close::{ConnectionError, H3ConnectionError};
use crate::driver::arrival_laws::{is_new, is_quiet};
use crate::driver::commands::{DriverState, H3Command, H3CommandAdmission};
use crate::driver::core_laws::{
    as_told, heard, hears, lemma_action_reaches_the_peer, lemma_session_is_heard_once, tells,
};
use crate::driver::events::Told;
use crate::driver::flows::StreamShutdown;
use crate::driver::state::{flows_of_others, CoreState, Flow, FlowFrame, WaitingRequest};
use crate::driver::writing_laws::lemma_close_leaves_in_order;
use crate::headers::asks_for_session;
use crate::peer_log::Sent;
use crate::request_stream::RequestStream;
use crate::request_stream_laws::{is_noted, sending_is_over};
use crate::table::{
    distinct, lemma_lookup_after_put, lemma_lookup_after_without, lemma_position, lookup, put,
    without,
};
use crate::transport::{Role, TransportState};
use crate::wire::capsule::close_capsule;
use crate::wire::varint::varint_bytes;
use crate::wt::runtime::SessionPhase;
use crate::wt::runtime_laws::{
    is_history, lemma_close_begins_once, lemma_connection_end_ends_the_session,
    lemma_one_session_at_a_time,
};
use crate::wt::types::{CloseReason, SessionEvent, StreamAction};

verus! {

/// Whether this end may open one more bidirectional stream.
pub open spec fn has_stream_left(transport: TransportState) -> bool {
    transport.bidi_opened < transport.bidi_limit && transport.bidi_opened
        < 1_152_921_504_606_846_975
}

/// The number of the next bidirectional stream of this end.
pub open spec fn next_request_stream(transport: TransportState) -> int {
    4 * transport.bidi_opened + if transport.role == Role::Client {
        0int
    } else {
        1int
    }
}

/// An ordinary request leaves on the next stream of this end, and ends it if it is all there
/// is: the application is told of the stream with the number that it gave the request.
/// Without a stream left the request waits behind the others, and nothing is told.
pub proof fn lemma_request_leaves_on_the_next_stream(
    state: CoreState,
    request_id: u64,
    list: Seq<(Seq<u8>, Seq<u8>)>,
    fin: bool,
    other: u64,
)
    requires
        state.session is None || !asks_for_session(list),
        hears(state, 1),
    ensures
        ({
            let after = state.requested(request_id, list, fin);
            if has_stream_left(state.transport) {
                let stream_id = next_request_stream(state.transport) as u64;
                &&& stream_id == next_request_stream(state.transport)
                &&& after.transport.bidi_opened == state.transport.bidi_opened + 1
                &&& after.transport.log.sent == (if fin {
                    state.transport.log.sent.push(Sent::Headers { stream_id, cost: 0 }).push(
                        Sent::Fin { stream_id },
                    )
                } else {
                    state.transport.log.sent.push(Sent::Headers { stream_id, cost: 0 })
                })
                &&& heard(after) == heard(state).push(
                    Told::NewOutboundRequest { stream_id, request_id },
                )
                &&& lookup(after.streams, stream_id) matches Some(stream) && is_new(
                    stream,
                    false,
                    fin,
                    false,
                )
                &&& other != stream_id ==> lookup(after.streams, other) == lookup(
                    state.streams,
                    other,
                )
                &&& after.waiting_requests == state.waiting_requests
                &&& after.session == state.session
            } else {
                after == (CoreState {
                    waiting_requests: state.waiting_requests.push(
                        WaitingRequest { request_id, fin },
                    ),
                    ..state
                })
            }
        }),
{
    reveal(CoreState::requested);
    reveal(CoreState::request_left);
    let stream_id = next_request_stream(state.transport) as u64;
    lemma_lookup_after_put(
        state.streams,
        stream_id,
        RequestStream::opened(false, fin, false),
        other,
    );
    lemma_lookup_after_put(
        state.streams,
        stream_id,
        RequestStream::opened(false, fin, false),
        stream_id,
    );
}

/// A request for a session leaves once the settings of the peer are there, if the peer offers
/// WebTransport, there is no session, and a stream is left: the session is announced, and
/// then the request. Otherwise it is refused by its number. Before the settings one request
/// waits, and any other one is refused.
pub proof fn lemma_session_request_leaves_when_it_can(
    state: CoreState,
    request_id: u64,
    list: Seq<(Seq<u8>, Seq<u8>)>,
    fin: bool,
)
    requires
        asks_for_session(list),
        state.session matches Some(s) && is_quiet(s),
        state.transport.role == Role::Client,
        hears(state, 2),
    ensures
        ({
            let after = state.requested(request_id, list, fin);
            let s = state.session->Some_0;
            let stream_id = next_request_stream(state.transport) as u64;
            let can = state.peer_webtransport == Some(true) && s.session is None
                && has_stream_left(state.transport) && !is_history(s, stream_id);
            let refused = Told::WebTransportRequestRejected { request_id };
            if !state.settings_forwarded {
                if state.queued_request is None {
                    after == (CoreState { queued_request: Some(request_id), ..state })
                } else {
                    heard(after) == heard(state).push(refused) && after.queued_request
                        == state.queued_request && after.transport == state.transport
                        && after.session == state.session
                }
            } else if can {
                &&& stream_id == next_request_stream(state.transport)
                &&& heard(after) == heard(state).push(
                    Told::Session(SessionEvent::Pending { session_id: stream_id }),
                ).push(Told::NewOutboundRequest { stream_id, request_id })
                &&& after.transport.log.sent == state.transport.log.sent.push(
                    Sent::Headers { stream_id, cost: 0 },
                )
                &&& after.transport.bidi_opened == state.transport.bidi_opened + 1
                &&& after.session matches Some(r) && (r.session matches Some(session)
                    && session.id == stream_id && session.phase == SessionPhase::Pending)
                &&& lookup(after.streams, stream_id) matches Some(stream) && is_new(
                    stream,
                    false,
                    false,
                    true,
                )
            } else {
                heard(after) == heard(state).push(refused) && after.transport == state.transport
                    && after.session == state.session && after.streams == state.streams
            }
        }),
{
    reveal(CoreState::requested);
    reveal(CoreState::session_requested);
    let s = state.session->Some_0;
    let stream_id = next_request_stream(state.transport) as u64;
    lemma_lookup_after_put(
        state.streams,
        stream_id,
        RequestStream::opened(false, false, true),
        stream_id,
    );
    lemma_one_session_at_a_time(s, stream_id);
    if state.can_ask_session() {
        let pending = SessionEvent::Pending { session_id: stream_id };
        let announced = CoreState {
            transport: TransportState {
                bidi_opened: (state.transport.bidi_opened + 1) as u64,
                ..state.transport
            }.sending(Sent::Headers { stream_id, cost: 0 }),
            session: Some(s.asked(stream_id).saying(pending)),
            streams: put(state.streams, stream_id, RequestStream::opened(false, false, true)),
            ..state
        };
        lemma_session_is_heard_once(announced);
        assert(announced.session->Some_0.events.map_values(as_told()) =~= seq![
            Told::Session(pending),
        ]);
        assert(heard(announced.flushed()) =~= heard(state).push(Told::Session(pending)));
    }
}

/// A request for a session that waits for the settings of the peer goes on with them, and
/// waits no more, whatever comes of it.
pub proof fn lemma_waiting_session_request_goes_on_once(state: CoreState)
    requires
        state.queued_request is Some,
    ensures
        ({
            let after = state.queued_request_sent();
            &&& !state.settings_forwarded ==> after == state
            &&& state.settings_forwarded ==> after == (CoreState {
                queued_request: None,
                ..state
            }).session_requested(state.queued_request->Some_0)
        }),
{
    reveal(CoreState::queued_request_sent);
}

/// Directions of a stream end on demand of the application as it says: to read no more is a
/// refusal, and to write no more a reset, each with its code. A stream that the driver does
/// not track stays as it is.
pub proof fn lemma_stream_is_shut_as_demanded(
    state: CoreState,
    stream_id: u64,
    error_code: u64,
)
    requires
        lookup(state.streams, stream_id) matches Some(stream) ==> !stream.session,
    ensures
        ({
            let row = lookup(state.streams, stream_id);
            let stream = row->Some_0;
            let live = row is Some && stream.live;
            let read = state.stream_shut(stream_id, StreamShutdown::Read { error_code });
            let write = state.stream_shut(stream_id, StreamShutdown::Write { error_code });
            &&& !live ==> read == state && write == state
            &&& live ==> {
                &&& lookup(state.transport.stops_sent, stream_id) is None ==> lookup(
                    read.transport.stops_sent,
                    stream_id,
                ) == Some(error_code)
                &&& read.transport.log.sent == state.transport.log.sent
                &&& !stream.recv_done ==> (lookup(read.streams, stream_id) matches Some(now)
                    && now.recv_done && is_noted(
                    now.audit.sent_stop_sending_error_code,
                    error_code,
                ))
                &&& write.transport.log.sent == state.transport.log.sent.push(
                    Sent::Reset { stream_id, error_code },
                )
                &&& write.transport.stops_sent == state.transport.stops_sent
                &&& !stream.send_done ==> (lookup(write.streams, stream_id) matches Some(now)
                    && sending_is_over(now) && is_noted(
                    now.audit.sent_reset_stream_error_code,
                    error_code,
                ))
            }
        }),
{
    reveal(CoreState::read_shut);
    reveal(CoreState::write_shut);
    lemma_action_reaches_the_peer(state, StreamAction::Stop { stream_id, error_code });
    lemma_action_reaches_the_peer(state, StreamAction::Reset { stream_id, error_code });
    assert(state.transport.log.sent + Seq::<Sent>::empty() =~= state.transport.log.sent);
    assert(state.transport.log.sent + seq![Sent::Reset { stream_id, error_code }]
        =~= state.transport.log.sent.push(Sent::Reset { stream_id, error_code }));
}

/// A datagram of a flow leaves behind the number of the flow: on the multicast channel that
/// the driver was given, or else the one of the connection, if the peer is known to receive
/// it, and otherwise to the peer alone while there is room. One of a flow that is not known
/// is dropped.
pub proof fn lemma_flow_datagram_leaves_once(
    state: CoreState,
    flow_id: u64,
    payload: Vec<u8>,
)
    requires
        flow_id <= 4_611_686_018_427_387_903,
    ensures
        ({
            let after = state.flow_frame_handled(FlowFrame::Datagram { flow_id, payload });
            let bytes = varint_bytes(flow_id) + payload@;
            let room = match state.transport.role {
                Role::Client => state.transport.pipe.client.dgram_send_queue_len,
                Role::Server => state.transport.pipe.server.dgram_send_queue_len,
            };
            let channel = match state.settings.multicast_datagram_channel_id {
                Some(channel_id) => Some(channel_id@),
                None => state.multicast.default_channel,
            };
            let shared = channel is Some && state.multicast.live.contains(channel->Some_0);
            &&& lookup(state.flows, flow_id) is None ==> after == state
            &&& lookup(state.flows, flow_id) is Some && shared ==> {
                &&& after.multicast.sent == state.multicast.sent.push(bytes)
                &&& after == (CoreState { multicast: after.multicast, ..state })
                &&& after.multicast.live == state.multicast.live
                    && after.multicast.default_channel == state.multicast.default_channel
            }
            &&& lookup(state.flows, flow_id) is Some && !shared
                && state.transport.dgrams_queued.len() < room ==> {
                &&& after.transport.dgrams_queued == state.transport.dgrams_queued.push(bytes)
                &&& after == (CoreState {
                    transport: TransportState {
                        dgrams_queued: after.transport.dgrams_queued,
                        ..state.transport
                    },
                    ..state
                })
            }
            &&& !shared && state.transport.dgrams_queued.len() >= room ==> after == state
        }),
{
    reveal(CoreState::flow_sent);
}

/// No more requests are taken once the application said so. Closing a session where there
/// are none, or with a text that is too long, changes nothing.
pub proof fn lemma_other_commands_do_what_they_say(
    state: CoreState,
    session_id: u64,
    error_code: u32,
    message: String,
)
    ensures
        state.commanded(H3Command::GoAway) == (CoreState { goaway_sent: true, ..state }),
        state.session is None ==> state.commanded(
            H3Command::CloseSession { session_id, error_code, message },
        ) == state,
        encode_utf8(message@).len() > 1024 ==> state.commanded(
            H3Command::CloseSession { session_id, error_code, message },
        ) == state,
{
    reveal(CoreState::commanded);
    reveal(CoreState::close_requested);
}

/// A command waits behind the others while the driver is there and there is room, and is
/// refused otherwise.
pub proof fn lemma_command_waits_in_order(state: DriverState, command: H3Command)
    ensures
        ({
            let after = state.offered(command);
            let room = state.commands.items.len() < state.commands.capacity;
            &&& state.admission() == (if !state.commands.open {
                H3CommandAdmission::DriverGone
            } else if room {
                H3CommandAdmission::Accepted
            } else {
                H3CommandAdmission::QueueFull
            })
            &&& state.commands.open && room ==> after.commands.items
                == state.commands.items.push(command) && after.core == state.core && after.desk
                == state.desk && after.requests == state.requests && after.commands.open
            &&& !(state.commands.open && room) ==> after == state
        }),
{
}

/// The settings of the peer count once, and only on a connection that is established.
pub proof fn lemma_settings_count_once(state: CoreState, first: bool, second: bool)
    ensures
        ({
            let after = state.settings_arrived(first);
            &&& state.established && state.peer_webtransport is None ==> after == (CoreState {
                peer_webtransport: Some(first),
                ..state
            })
            &&& !state.established || state.peer_webtransport is Some ==> after == state
            &&& after.settings_arrived(second) == after || !state.established
        }),
{
}

/// A connection that nobody needs is closed by this end with the code 0x100: the application
/// is gone, no request stream is left, and no flow. The first close counts.
pub proof fn lemma_unused_connection_is_closed(state: CoreState)
    ensures
        ({
            let after = state.closed_if_unused();
            let unused = state.controller_gone && state.flows.len() == 0 && (forall|i: int|
                0 <= i < state.streams.len() ==> !(#[trigger] state.streams[i]).1.live);
            &&& !unused ==> after == state
            &&& unused ==> after == (CoreState { transport: after.transport, ..state })
                && after.transport.local_error == (match state.transport.local_error {
                Some(error) => Some(error),
                None => Some(ConnectionError { is_app: true, error_code: 0x100 }),
            })
        }),
{
    reveal(CoreState::closed_if_unused);
}

/// The end of the connection ends the session, if it was not over, and the application is
/// told so; nothing of streams, flows and what waits for them is left. Where the events were
/// too many, this end closes with the code 0x107; where the transport failed, the
/// application is told that too.
pub proof fn lemma_connection_end_leaves_nothing(
    state: CoreState,
    result: Result<(), H3ConnectionError>,
)
    requires
        state.session matches Some(s) ==> is_quiet(s),
        hears(state, 2),
    ensures
        ({
            let after = state.connection_ended(result);
            let live = state.session matches Some(s) && (s.session matches Some(session)
                && session.phase != SessionPhase::Terminal);
            let ended = if live {
                heard(state).push(
                    Told::Session(
                        SessionEvent::Terminated {
                            session_id: state.session->Some_0.session->Some_0.id,
                            reason: CloseReason::ConnectionClosed,
                        },
                    ),
                )
            } else {
                heard(state)
            };
            &&& heard(after) == (if result == Err::<(), _>(H3ConnectionError::TransportFailed) {
                ended.push(Told::ConnectionError)
            } else {
                ended
            })
            &&& after.transport.local_error == (if result == Err::<(), _>(
                H3ConnectionError::EventQueueOverloaded,
            ) && state.transport.local_error is None {
                Some(ConnectionError { is_app: true, error_code: 0x107 })
            } else {
                state.transport.local_error
            })
            &&& after.transport.log == state.transport.log
            &&& after.session matches Some(r) ==> r.session is None && r.streams.len() == 0
                && r.held.len() == 0
            &&& after.session is None <==> state.session is None
            &&& after.streams.len() == 0 && after.flows.len() == 0
            &&& after.datagrams.queue.len() == 0 && after.datagrams.lost.len() == 0
            &&& after.raw.sent.len() == 0 && after.raw_seen.len() == 0
            &&& after.flow_frames.len() == 0 && after.waiting_requests.len() == 0
            &&& after.deferred is None && after.queued_request is None
        }),
{
    reveal(CoreState::connection_ended);
    let closed = CoreState {
        transport: if result == Err::<(), _>(H3ConnectionError::EventQueueOverloaded) {
            state.transport.closed(true, 0x107)
        } else {
            state.transport
        },
        session: match state.session {
            Some(s) => Some(s.disconnected()),
            None => None,
        },
        ..state
    };
    if let Some(s) = state.session {
        lemma_connection_end_ends_the_session(s);
        assert(s.actions =~= Seq::empty());
        lemma_session_is_heard_once(closed);
        assert(heard(closed.flushed()) =~= heard(state) + s.disconnected().events.map_values(
            as_told(),
        ));
        if s.session matches Some(session) && session.phase != SessionPhase::Terminal {
            let event = SessionEvent::Terminated {
                session_id: s.session->Some_0.id,
                reason: CloseReason::ConnectionClosed,
            };
            assert(s.disconnected().events.map_values(as_told()) =~= seq![Told::Session(event)]);
            assert(heard(closed.flushed()) =~= heard(state).push(Told::Session(event)));
        } else {
            assert(s.disconnected().events.map_values(as_told()) =~= Seq::<Told>::empty());
            assert(heard(closed.flushed()) =~= heard(state));
        }
    } else {
        reveal(CoreState::flushed);
    }
}

/// A flow that the application shuts down is gone, and the stream that it belongs to ends in
/// both directions with the code 0x100.
pub proof fn lemma_flow_ends_with_its_stream(
    state: CoreState,
    flow_id: u64,
    stream_id: u64,
    other: u64,
)
    requires
        distinct(state.flows),
        lookup(state.streams, stream_id) matches Some(stream) && stream.live && !stream.session
            && !stream.recv_done && !stream.send_done,
        lookup(state.transport.stops_sent, stream_id) is None,
    ensures
        ({
            let after = state.flow_frame_handled(FlowFrame::Shutdown { flow_id, stream_id });
            &&& lookup(after.transport.stops_sent, stream_id) == Some(0x100u64)
            &&& after.transport.log.sent == state.transport.log.sent.push(
                Sent::Reset { stream_id, error_code: 0x100 },
            )
            &&& lookup(after.streams, stream_id) matches Some(now) && !now.live
            &&& lookup(after.flows, flow_id) is None
        }),
{
    reveal(CoreState::read_shut);
    reveal(CoreState::write_shut);
    let rest = CoreState { flows: without(state.flows, flow_id), ..state };
    lemma_lookup_after_without(state.flows, flow_id, flow_id);
    let stop = StreamAction::Stop { stream_id, error_code: 0x100 };
    let reset = StreamAction::Reset { stream_id, error_code: 0x100 };
    let middle = rest.performed(stop);
    lemma_action_reaches_the_peer(rest, stop);
    lemma_stop_leaves_this_direction(rest, stream_id, 0x100);
    lemma_action_reaches_the_peer(middle, reset);
    lemma_reset_gives_up_what_is_refused(middle, stream_id, 0x100);
    assert(state.transport.log.sent + Seq::<Sent>::empty() =~= state.transport.log.sent);
    assert(state.transport.log.sent + seq![Sent::Reset { stream_id, error_code: 0x100 }]
        =~= state.transport.log.sent.push(Sent::Reset { stream_id, error_code: 0x100 }));
    lemma_flows_stay_gone(middle.flows, stream_id, flow_id);
}

proof fn lemma_stop_leaves_this_direction(state: CoreState, stream_id: u64, error_code: u64)
    requires
        lookup(state.streams, stream_id) matches Some(stream) && stream.live && !stream.session
            && !stream.recv_done && !stream.send_done,
    ensures
        ({
            let after = state.performed(StreamAction::Stop { stream_id, error_code });
            &&& lookup(after.streams, stream_id) matches Some(now) && now.live && now.recv_done
                && !now.send_done && !now.session
            &&& after.flows == state.flows
        }),
{
    reveal(CoreState::performed);
    reveal(CoreState::with_stream);
    let stream = lookup(state.streams, stream_id)->Some_0;
    lemma_lookup_after_put(
        state.streams,
        stream_id,
        stream.with_local_stop(error_code),
        stream_id,
    );
}

proof fn lemma_reset_gives_up_what_is_refused(
    state: CoreState,
    stream_id: u64,
    error_code: u64,
)
    requires
        lookup(state.streams, stream_id) matches Some(stream) && stream.live && stream.recv_done
            && !stream.send_done,
    ensures
        ({
            let after = state.performed(StreamAction::Reset { stream_id, error_code });
            &&& lookup(after.streams, stream_id) matches Some(now) && !now.live
            &&& after.flows == flows_of_others(state.flows, stream_id)
        }),
{
    reveal(CoreState::performed);
    reveal(CoreState::with_stream);
    let stream = lookup(state.streams, stream_id)->Some_0;
    lemma_lookup_after_put(
        state.streams,
        stream_id,
        stream.with_local_reset(error_code),
        stream_id,
    );
}

proof fn lemma_flows_stay_gone(rows: Seq<(u64, Flow)>, stream_id: u64, flow_id: u64)
    requires
        lookup(rows, flow_id) is None,
    ensures
        lookup(flows_of_others(rows, stream_id), flow_id) is None,
{
    lemma_position(rows, flow_id);
    lemma_no_new_flow(rows, stream_id, flow_id);
    lemma_position(flows_of_others(rows, stream_id), flow_id);
}

proof fn lemma_no_new_flow(rows: Seq<(u64, Flow)>, stream_id: u64, flow_id: u64)
    requires
        forall|i: int| 0 <= i < rows.len() ==> (#[trigger] rows[i]).0 != flow_id,
    ensures
        forall|i: int|
            0 <= i < flows_of_others(rows, stream_id).len() ==> (#[trigger] flows_of_others(
                rows,
                stream_id,
            )[i]).0 != flow_id,
    decreases rows.len(),
{
    if rows.len() > 0 {
        let front = rows.drop_last();
        assert forall|i: int| 0 <= i < front.len() implies (#[trigger] front[i]).0 != flow_id by {
            assert(front[i] == rows[i]);
        }
        lemma_no_new_flow(front, stream_id, flow_id);
        assert(rows[rows.len() - 1].0 != flow_id);
        let kept = flows_of_others(rows, stream_id);
        assert forall|i: int| 0 <= i < kept.len() implies (#[trigger] kept[i]).0 != flow_id by {
            if i < flows_of_others(front, stream_id).len() {
                assert(kept[i] == flows_of_others(front, stream_id)[i]);
            }
        }
    }
}

/// Closing the active session from this end, with credit for it, sends the close with its
/// code and text and the end of the stream behind it, and the application is told that the
/// session ended that way.
pub proof fn lemma_close_of_this_end_reaches_both_sides(
    state: CoreState,
    session_id: u64,
    error_code: u32,
    message: String,
)
    requires
        encode_utf8(message@).len() <= 1024,
        state.session matches Some(s) && is_quiet(s) && (s.session matches Some(session)
            && session.id == session_id && session.phase == SessionPhase::Active),
        lookup(state.streams, session_id) matches Some(stream) && stream.live && stream.wf()
            && !stream.send_done && !stream.recv_done && stream.queued is None
            && stream.outbound is None,
        lookup(state.transport.stops_received, session_id) is None,
        state.transport.credit_of(session_id) >= 2 + close_capsule(
            error_code,
            encode_utf8(message@),
        ).len(),
        hears(state, 1),
    ensures
        ({
            let after = state.commanded(
                H3Command::CloseSession { session_id, error_code, message },
            );
            let capsule = close_capsule(error_code, encode_utf8(message@));
            &&& state.transport.log.sent.len() + 2 <= after.transport.log.sent.len()
            &&& after.transport.log.sent.take(state.transport.log.sent.len() as int + 2)
                == state.transport.log.sent.push(
                Sent::Body { stream_id: session_id, data: capsule },
            ).push(Sent::Fin { stream_id: session_id })
            &&& tells(
                state,
                after,
                seq![
                    Told::Session(
                        SessionEvent::Terminated {
                            session_id,
                            reason: CloseReason::Local { error_code, message: message@ },
                        },
                    ),
                ],
            )
        }),
{
    reveal(CoreState::commanded);
    reveal(CoreState::close_requested);
    let s = state.session->Some_0;
    lemma_close_begins_once(s, session_id, error_code, message@);
    let begun = state.with_session(s.close_begun(session_id, error_code, message@));
    let capsule = close_capsule(error_code, encode_utf8(message@));
    assert(capsule.subrange(0, capsule.len() as int) =~= capsule);
    lemma_close_leaves_in_order(begun);
}

} // verus!
