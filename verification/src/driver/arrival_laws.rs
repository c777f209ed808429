//! What the application learns of what arrives, and what becomes of it, told by the events
//! that wait, the request streams and what was sent.

use vstd::prelude::*;

use crate::driver::core_laws::{
    as_told, heard, hears, lemma_session_is_heard_once, sent_by_all, tells,
};
use crate::driver::events::Told;
use crate::driver::state::{CoreState, DeferredRequest, Flow, Notice};
use crate::headers::{asks_for_session, flow_of, status_of};
use crate::peer_log::Sent;
use crate::request_stream::{InboundFrame, RequestStream, StreamClosureKind};
use crate::request_stream_laws::is_noted;
use crate::table::{lemma_lookup_after_put, lookup, put};
use crate::transport::Role;
use crate::wire::capsule::scan_capsules;
use crate::wt::runtime::{RuntimeState, SessionPhase, SessionState};
use crate::wt::runtime_laws::{
    as_given, is_history, lemma_ends_of_the_connect_stream, lemma_final_response_decides,
    lemma_one_session_at_a_time, lemma_session_end_is_complete,
    lemma_waiting_streams_are_handed_over, waiting_on,
};
use crate::wt::types::{CloseReason, SessionEvent, StreamAction};

verus! {

/// Whether nothing of a session waits to be told or done.
pub open spec fn is_quiet(s: RuntimeState) -> bool {
    s.events.len() == 0 && s.actions.len() == 0
}

/// Whether a request stream has just been opened: both directions can be used unless they
/// are over, and nothing waits in either.
pub open spec fn is_new(
    stream: RequestStream,
    recv_done: bool,
    send_done: bool,
    session: bool,
) -> bool {
    &&& stream.live && stream.receiver && stream.sender
    &&& stream.inbound is None && stream.outbound is None && stream.queued is None
    &&& stream.inbound_open && stream.outbound_open == !send_done && !stream.fin_undelivered
    &&& stream.recv_done == recv_done && stream.send_done == send_done && stream.session
        == session
    &&& stream.audit.recvd_stream_fin == (if recv_done {
        StreamClosureKind::Explicit
    } else {
        StreamClosureKind::NotClosed
    })
    &&& stream.audit.sent_stream_fin == (if send_done {
        StreamClosureKind::Explicit
    } else {
        StreamClosureKind::NotClosed
    })
    &&& stream.audit.downstream_bytes_sent == 0 && stream.audit.downstream_bytes_recvd == 0
}

/// A request that asks for no session reaches a server as it is: the application is told of
/// the flow that it names, if flows are offered, and then of the request and whether it is
/// over. Its stream can be used from then on.
pub proof fn lemma_request_reaches_the_application(
    state: CoreState,
    stream_id: u64,
    list: Seq<(Seq<u8>, Seq<u8>)>,
    fin: bool,
    other: u64,
)
    requires
        state.transport.role == Role::Server,
        state.session is None || !asks_for_session(list),
        hears(state, 2),
    ensures
        ({
            let after = state.headers_arrived(stream_id, list, fin);
            let flows = state.settings.enable_extended_connect
                || state.settings.enable_webtransport;
            &&& lookup(after.streams, stream_id) matches Some(stream) && is_new(
                stream,
                fin,
                false,
                false,
            )
            &&& other != stream_id ==> lookup(after.streams, other) == lookup(
                state.streams,
                other,
            )
            &&& if flow_of(list) is Some && flows {
                let flow_id = flow_of(list)->Some_0 as u64;
                &&& heard(after) == heard(state).push(Told::NewFlow { flow_id }).push(
                    Told::Headers { stream_id, read_fin: fin },
                )
                &&& lookup(after.flows, flow_id) == Some(Flow { stream_id: Some(stream_id) })
                &&& other != flow_id ==> lookup(after.flows, other) == lookup(
                    state.flows,
                    other,
                )
            } else {
                &&& heard(after) == heard(state).push(Told::Headers { stream_id, read_fin: fin })
                &&& after.flows == state.flows
            }
            &&& after.failed is None && after.session == state.session && after.transport
                == state.transport
        }),
{
    reveal(CoreState::headers_arrived);
    reveal(CoreState::request_arrived);
    lemma_lookup_after_put(
        state.streams,
        stream_id,
        RequestStream::opened(fin, false, false),
        other,
    );
    if let Some(flow_id) = flow_of(list) {
        lemma_lookup_after_put(
            state.flows,
            flow_id as u64,
            Flow { stream_id: Some(stream_id) },
            other,
        );
    }
}

/// A request for a session, at a server that offers them. A peer that does not offer
/// WebTransport is turned away in both directions with the code 0x10e. A session that can be
/// taken up is announced, and then its request; until the settings of the peer are there it
/// waits, and nobody is told. Any other one is turned away, and nobody is told.
pub proof fn lemma_session_request_is_announced(
    state: CoreState,
    stream_id: u64,
    list: Seq<(Seq<u8>, Seq<u8>)>,
)
    requires
        state.transport.role == Role::Server,
        asks_for_session(list),
        state.session matches Some(s) && is_quiet(s),
        hears(state, 2),
    ensures
        ({
            let s = state.session->Some_0;
            let after = state.headers_arrived(stream_id, list, false);
            let refused = state.settings_forwarded && state.peer_webtransport != Some(true);
            let taken = s.session is None && stream_id % 4 == 0 && !is_history(s, stream_id);
            &&& refused ==> {
                &&& after.transport.log.sent == state.transport.log.sent.push(
                    Sent::Reset { stream_id, error_code: 0x10e },
                )
                &&& lookup(state.transport.stops_sent, stream_id) is None ==> lookup(
                    after.transport.stops_sent,
                    stream_id,
                ) == Some(0x10eu64)
                &&& heard(after) == heard(state) && after.session == state.session
                    && after.streams == state.streams
            }
            &&& !refused && taken ==> {
                &&& after.session matches Some(r) && r.session matches Some(session) && session.id
                    == stream_id && session.phase == SessionPhase::Pending
                &&& after.transport == state.transport
                &&& if state.settings_forwarded {
                    &&& heard(after) == heard(state).push(
                        Told::Session(SessionEvent::Pending { session_id: stream_id }),
                    ).push(Told::Headers { stream_id, read_fin: false })
                    &&& lookup(after.streams, stream_id) matches Some(stream) && is_new(
                        stream,
                        false,
                        false,
                        true,
                    )
                } else {
                    &&& heard(after) == heard(state) && after.streams == state.streams
                    &&& after.deferred == Some(DeferredRequest { stream_id, fin: false })
                }
            }
            &&& !refused && !taken ==> {
                &&& tells(state, after, Seq::empty())
                &&& after.session matches Some(r) && r.session == s.session
                &&& after.transport.log.sent.len() > state.transport.log.sent.len()
                &&& after.transport.log.sent.take(state.transport.log.sent.len() as int)
                    == state.transport.log.sent
                &&& after.transport.log.sent[state.transport.log.sent.len() as int] == (
                Sent::Reset { stream_id, error_code: 0x10b })
                &&& lookup(after.transport.stops_sent, stream_id) is Some
            }
        }),
{
    reveal(CoreState::headers_arrived);
    reveal(CoreState::session_asked);
    let s = state.session->Some_0;
    lemma_lookup_after_put(state.transport.stops_sent, stream_id, 0x10eu64, stream_id);
    let refused = state.settings_forwarded && state.peer_webtransport != Some(true);
    let asked = state.with_session(s.asked(stream_id));
    if !refused {
        if s.takes_session(stream_id) {
            if state.settings_forwarded {
                reveal(CoreState::session_taken_up);
                lemma_lookup_after_put(
                    state.streams,
                    stream_id,
                    RequestStream::opened(false, false, true),
                    stream_id,
                );
                let announced = CoreState {
                    session: Some(
                        s.asked(stream_id).saying(SessionEvent::Pending { session_id: stream_id }),
                    ),
                    streams: put(
                        state.streams,
                        stream_id,
                        RequestStream::opened(false, false, true),
                    ),
                    ..state
                };
                lemma_session_is_heard_once(announced);
                assert(announced.session->Some_0.events.map_values(as_told()) =~= seq![
                    Told::Session(SessionEvent::Pending { session_id: stream_id }),
                ]);
                assert(heard(announced.flushed()) =~= heard(state).push(
                    Told::Session(SessionEvent::Pending { session_id: stream_id }),
                ));
            }
        } else {
            lemma_session_is_heard_once(asked);
            let actions = asked.session->Some_0.actions;
            lemma_one_session_at_a_time(s, stream_id);
            assert(asked.session->Some_0.events.map_values(as_told()) =~= Seq::<Told>::empty());
            let reset = StreamAction::Reset { stream_id, error_code: 0x10b };
            let front = seq![reset, StreamAction::Stop { stream_id, error_code: 0x10b }];
            assert(s.actions.push(front[0]).push(front[1]) =~= front);
            lemma_sent_starts_with(actions, front);
            reveal_with_fuel(sent_by_all, 3);
            assert(sent_by_all(front)[0] == Sent::Reset { stream_id, error_code: 0x10b }) by {
                assert(front.drop_last() =~= seq![reset]);
                assert(seq![reset].drop_last() =~= Seq::<StreamAction>::empty());
            }
            assert(actions[1] == actions.take(2)[1]);
            let sent = sent_by_all(actions);
            assert(sent[0] == sent.take(sent_by_all(front).len() as int)[0]);
            assert((state.transport.log.sent + sent).take(state.transport.log.sent.len() as int)
                =~= state.transport.log.sent);
        }
    }
}

proof fn lemma_sent_starts_with(actions: Seq<StreamAction>, front: Seq<StreamAction>)
    requires
        front.len() <= actions.len(),
        actions.take(front.len() as int) == front,
    ensures
        sent_by_all(front).len() <= sent_by_all(actions).len(),
        sent_by_all(actions).take(sent_by_all(front).len() as int) == sent_by_all(front),
    decreases actions.len(),
{
    if front.len() == actions.len() {
        assert(actions =~= front);
    } else {
        assert(actions.drop_last().take(front.len() as int) =~= front);
        lemma_sent_starts_with(actions.drop_last(), front);
    }
    assert(sent_by_all(actions).take(sent_by_all(front).len() as int) =~= sent_by_all(front));
}

/// The final response to a request for a session. An informational one changes nothing. A
/// successful one is told, then its fields, and then each stream that waited. Any other one
/// is told first, and the session is over.
pub proof fn lemma_response_to_a_session_is_told(
    state: CoreState,
    stream_id: u64,
    list: Seq<(Seq<u8>, Seq<u8>)>,
)
    requires
        state.transport.role == Role::Client,
        lookup(state.streams, stream_id) matches Some(stream) && stream.session,
        status_of(list) matches Some(n) && n <= 0xffff,
        state.session matches Some(s) && is_quiet(s) && s.held.len() == 0 && (
        s.session matches Some(session) && session.id == stream_id && session.phase
            == SessionPhase::Pending),
        hears(
            state,
            2 + state.session->Some_0.streams.filter(waiting_on(stream_id)).len() as int,
        ),
    ensures
        ({
            let s = state.session->Some_0;
            let status = status_of(list)->Some_0;
            let after = state.headers_arrived(stream_id, list, false);
            &&& status < 200 ==> after == state
            &&& 200 <= status < 300 ==> {
                &&& heard(after) == heard(state).push(
                    Told::Session(SessionEvent::Accepted { session_id: stream_id }),
                ).push(Told::IncomingHeaders { stream_id, read_fin: false })
                    + s.streams.filter(waiting_on(stream_id)).map_values(
                    as_given(),
                ).map_values(as_told())
                &&& after.transport == state.transport && after.streams == state.streams
                &&& after.session matches Some(r) && r.session == Some(
                    SessionState { phase: SessionPhase::Active, ..s.session->Some_0 },
                )
            }
            &&& 300 <= status ==> {
                &&& heard(after).len() > heard(state).len()
                &&& heard(after).take(heard(state).len() as int) == heard(state)
                &&& heard(after)[heard(state).len() as int] == Told::Session(
                    SessionEvent::Rejected { session_id: stream_id, status: status as u16 },
                )
                &&& after.session matches Some(r) && r.session == Some(
                    SessionState { phase: SessionPhase::Terminal, ..s.session->Some_0 },
                )
            }
        }),
{
    reveal(CoreState::headers_arrived);
    reveal(CoreState::response_arrived);
    reveal(CoreState::session_answered);
    let s = state.session->Some_0;
    let status = status_of(list)->Some_0 as u16;
    lemma_final_response_decides(s, status);
    if status >= 200 {
        let first = state.with_session(s.answered(status));
        lemma_session_is_heard_once(first);
        let headers = Told::IncomingHeaders { stream_id, read_fin: false };
        let told = first.flushed().told(headers);
        let r = first.flushed().session->Some_0;
        lemma_nothing_to_read(r.admitted());
        let second = told.with_session(r.admitted().capsules_read());
        if status < 300 {
            let accepted = SessionEvent::Accepted { session_id: stream_id };
            assert(s.answered(status).events.map_values(as_told()) =~= seq![
                Told::Session(accepted),
            ]);
            assert(heard(first.flushed()) =~= heard(state).push(Told::Session(accepted)));
            lemma_waiting_streams_are_handed_over(r);
            assert(Seq::<SessionEvent>::empty() + s.streams.filter(
                waiting_on(stream_id),
            ).map_values(as_given()) =~= s.streams.filter(waiting_on(stream_id)).map_values(
                as_given(),
            ));
            assert(r.admitted().capsules_read() == r.admitted());
            lemma_session_is_heard_once(second);
        } else {
            let rejected = SessionEvent::Rejected { session_id: stream_id, status };
            assert(s.answered(status).events.map_values(as_told()) =~= seq![
                Told::Session(rejected),
            ]);
            assert(r.admitted() == r && r.capsules_read() == r);
            lemma_quiet_flush(second);
            let base = heard(state) + seq![Told::Session(rejected)];
            let now = heard(first.flushed());
            assert(now.take(base.len() as int) == base);
            assert(heard(state.headers_arrived(stream_id, list, false)) == heard(told));
            assert(heard(told).take(base.len() as int) =~= base);
            assert(heard(told).take(heard(state).len() as int) =~= base.take(
                heard(state).len() as int,
            ));
            assert(base.take(heard(state).len() as int) =~= heard(state));
            assert(heard(told)[heard(state).len() as int] == base[heard(state).len() as int]);
        }
    }
}

/// Without bytes there are no capsules.
pub proof fn lemma_nothing_to_read(s: RuntimeState)
    requires
        s.held.len() == 0,
    ensures
        s.capsules_read() == s,
{
    assert(s.held =~= Seq::<u8>::empty());
    reveal_with_fuel(scan_capsules, 2);
}

/// A session with nothing to say or do is left alone.
pub proof fn lemma_quiet_flush(state: CoreState)
    requires
        state.session matches Some(s) && is_quiet(s),
    ensures
        state.flushed() == state,
{
    reveal(CoreState::flushed);
    let s = state.session->Some_0;
    assert(s.events =~= Seq::empty());
    assert(s.actions =~= Seq::empty());
    assert(s == (RuntimeState { events: Seq::empty(), actions: Seq::empty(), ..s }));
}

/// Body bytes of an ordinary stream are told with their number, and wait for the reader.
/// Where nobody reads, the peer is told so with the code 0x10c, and the application is not
/// told of bytes. Bytes of a stream that is over, or is not known, change nothing.
pub proof fn lemma_body_bytes_are_told(
    state: CoreState,
    stream_id: u64,
    data: Vec<u8>,
    other: u64,
)
    requires
        lookup(state.streams, stream_id) matches Some(stream) ==> !stream.session && stream.wf()
            && (stream.receiver ==> stream.inbound is None),
        hears(state, 1),
    ensures
        ({
            let after = state.data_arrived(stream_id, data);
            let row = lookup(state.streams, stream_id);
            let stream = row->Some_0;
            let open = row is Some && stream.live && !stream.recv_done;
            &&& !open ==> after == state
            &&& open && stream.receiver ==> {
                &&& heard(after) == heard(state).push(
                    Told::BodyBytesReceived {
                        stream_id,
                        num_bytes: data@.len() as u64,
                        fin: false,
                    },
                )
                &&& lookup(after.streams, stream_id) matches Some(now) && now.inbound == Some(
                    InboundFrame::Body(data),
                ) && now.live && !now.recv_done
                &&& after.transport == state.transport
            }
            &&& open && !stream.receiver ==> {
                &&& tells(state, after, Seq::empty())
                &&& lookup(after.streams, stream_id) matches Some(now) && now.recv_done
                    && now.inbound == stream.inbound
                &&& lookup(state.transport.stops_sent, stream_id) is None ==> lookup(
                    after.transport.stops_sent,
                    stream_id,
                ) == Some(0x10cu64)
                &&& after.transport.log == state.transport.log
            }
            &&& other != stream_id ==> lookup(after.streams, other) == lookup(
                state.streams,
                other,
            )
            &&& after.session == state.session
        }),
{
    reveal(CoreState::data_arrived);
    reveal(CoreState::with_stream);
    if let Some(stream) = lookup(state.streams, stream_id) {
        lemma_lookup_after_put(state.streams, stream_id, stream.with_body(data), other);
        lemma_lookup_after_put(state.transport.stops_sent, stream_id, 0x10cu64, stream_id);
        let after = state.data_arrived(stream_id, data);
        assert(heard(after).len() >= heard(state).len() ==> heard(after).take(
            heard(state).len() as int,
        ) =~= heard(state));
        assert(heard(state) + Seq::<Told>::empty() =~= heard(state));
    }
}

/// The end of an ordinary stream is told once, behind its bytes. The stream stays until the
/// end was handed over and this end is done too.
pub proof fn lemma_end_of_a_body_is_told(state: CoreState, stream_id: u64)
    requires
        lookup(state.streams, stream_id) matches Some(stream) ==> !stream.session && stream.wf(),
        hears(state, 1),
    ensures
        ({
            let after = state.fin_arrived(stream_id);
            let row = lookup(state.streams, stream_id);
            let stream = row->Some_0;
            let open = row is Some && stream.live && !stream.recv_done;
            &&& !open ==> after == state
            &&& open ==> {
                &&& tells(
                    state,
                    after,
                    seq![Told::BodyBytesReceived { stream_id, num_bytes: 0, fin: true }],
                )
                &&& lookup(after.streams, stream_id) matches Some(now) && now.recv_done
                    && now.audit.recvd_stream_fin == StreamClosureKind::Explicit
                &&& after.transport == state.transport && after.session == state.session
                &&& state.fin_arrived(stream_id).fin_arrived(stream_id) == after
            }
        }),
{
    reveal(CoreState::fin_arrived);
    reveal(CoreState::with_stream);
    if let Some(stream) = lookup(state.streams, stream_id) {
        lemma_lookup_after_put(state.streams, stream_id, stream.with_fin(), stream_id);
        let after = state.fin_arrived(stream_id);
        let list = seq![Told::BodyBytesReceived { stream_id, num_bytes: 0, fin: true }];
        if stream.live && !stream.recv_done {
            assert(heard(after).take((heard(state) + list).len() as int) =~= heard(state) + list);
        }
    }
}

/// A reset of an ordinary stream is told once, and is in its statistics. One of a stream
/// that is no request stream is noted for the session, and so is a refusal; a refusal of a
/// request stream is found when it is written to.
pub proof fn lemma_reset_is_told(state: CoreState, stream_id: u64, error_code: u64)
    requires
        lookup(state.streams, stream_id) matches Some(stream) ==> !stream.session && stream.wf(),
        hears(state, 1),
    ensures
        ({
            let after = state.reset_arrived(stream_id, error_code);
            let row = lookup(state.streams, stream_id);
            let stream = row->Some_0;
            let open = row is Some && stream.live && !stream.recv_done;
            &&& row is None ==> after == (CoreState {
                notices: state.notices.push(Notice::Reset { stream_id, error_code }),
                ..state
            })
            &&& row is Some && !open ==> after == state
            &&& open ==> {
                &&& tells(state, after, seq![Told::ResetStream { stream_id }])
                &&& lookup(after.streams, stream_id) matches Some(now) && now.recv_done
                    && !now.inbound_open && is_noted(
                    now.audit.recvd_reset_stream_error_code,
                    error_code,
                )
                &&& after.transport == state.transport && after.session == state.session
            }
            &&& state.stop_arrived(stream_id, error_code) == (if row is None {
                CoreState {
                    notices: state.notices.push(Notice::Stopped { stream_id, error_code }),
                    ..state
                }
            } else {
                state
            })
        }),
{
    reveal(CoreState::reset_arrived);
    reveal(CoreState::stop_arrived);
    reveal(CoreState::with_stream);
    if let Some(stream) = lookup(state.streams, stream_id) {
        lemma_lookup_after_put(
            state.streams,
            stream_id,
            stream.with_reset(error_code),
            stream_id,
        );
        let after = state.reset_arrived(stream_id, error_code);
        let list = seq![Told::ResetStream { stream_id }];
        if stream.live && !stream.recv_done {
            assert(heard(after).take((heard(state) + list).len() as int) =~= heard(state) + list);
        }
    }
}

/// The end of the CONNECT stream of a live session ends the session: a clean end as a clean
/// one, and a reset with its code. The application is told why, once.
pub proof fn lemma_end_of_the_connect_stream_is_told(
    state: CoreState,
    stream_id: u64,
    error_code: u64,
)
    requires
        lookup(state.streams, stream_id) matches Some(stream) && stream.session && stream.live
            && !stream.recv_done && !stream.send_done && stream.wf(),
        state.session matches Some(s) && is_quiet(s) && (s.session matches Some(session)
            && session.id == stream_id && session.phase != SessionPhase::Terminal),
        hears(state, 1),
    ensures
        tells(
            state,
            state.fin_arrived(stream_id),
            seq![
                Told::Session(
                    SessionEvent::Terminated { session_id: stream_id, reason: CloseReason::Clean },
                ),
            ],
        ),
        tells(
            state,
            state.reset_arrived(stream_id, error_code),
            seq![
                Told::Session(
                    SessionEvent::Terminated {
                        session_id: stream_id,
                        reason: CloseReason::ConnectReset { error_code },
                    },
                ),
            ],
        ),
{
    reveal(CoreState::fin_arrived);
    reveal(CoreState::reset_arrived);
    reveal(CoreState::with_stream);
    let s = state.session->Some_0;
    let session = s.session->Some_0;
    let received = RuntimeState {
        session: Some(SessionState { receive_done: true, ..session }),
        ..s
    };
    let stream = lookup(state.streams, stream_id)->Some_0;
    lemma_ends_of_the_connect_stream(s, CloseReason::Clean, error_code);
    lemma_ends_of_the_connect_stream(s, CloseReason::ConnectReset { error_code }, error_code);
    lemma_session_end_is_complete(received, CloseReason::Clean);
    lemma_session_end_is_complete(received, CloseReason::ConnectReset { error_code });
    let clean = state.with_stream(stream_id, stream.with_ending_headers()).with_session(
        s.peer_ended(CloseReason::Clean),
    );
    let broken = state.with_stream(stream_id, stream.with_reset(error_code)).with_session(
        s.peer_ended(CloseReason::ConnectReset { error_code }),
    );
    lemma_session_is_heard_once(clean);
    lemma_session_is_heard_once(broken);
    assert(clean.session->Some_0.events.map_values(as_told()) =~= seq![
        Told::Session(
            SessionEvent::Terminated { session_id: stream_id, reason: CloseReason::Clean },
        ),
    ]);
    assert(broken.session->Some_0.events.map_values(as_told()) =~= seq![
        Told::Session(
            SessionEvent::Terminated {
                session_id: stream_id,
                reason: CloseReason::ConnectReset { error_code },
            },
        ),
    ]);
}

/// An ordinary response is told as it is, and whether it is over with it. Its stream is known
/// to be over then. A response on a stream that is not known changes nothing.
pub proof fn lemma_response_is_told(
    state: CoreState,
    stream_id: u64,
    list: Seq<(Seq<u8>, Seq<u8>)>,
    fin: bool,
)
    requires
        state.transport.role == Role::Client,
        lookup(state.streams, stream_id) matches Some(stream) ==> !stream.session,
        hears(state, 1),
    ensures
        ({
            let after = state.headers_arrived(stream_id, list, fin);
            let row = lookup(state.streams, stream_id);
            &&& row is None ==> after == state
            &&& row is Some ==> {
                &&& tells(state, after, seq![Told::IncomingHeaders { stream_id, read_fin: fin }])
                &&& lookup(after.streams, stream_id) matches Some(now) && (if fin {
                    now.recv_done && now.audit.recvd_stream_fin == StreamClosureKind::Explicit
                } else {
                    now == row->Some_0
                })
                &&& after.transport == state.transport && after.session == state.session
            }
        }),
{
    reveal(CoreState::headers_arrived);
    reveal(CoreState::response_arrived);
    reveal(CoreState::with_stream);
    if let Some(stream) = lookup(state.streams, stream_id) {
        lemma_lookup_after_put(
            state.streams,
            stream_id,
            stream.with_ending_headers(),
            stream_id,
        );
        let after = state.headers_arrived(stream_id, list, fin);
        let told = heard(state) + seq![Told::IncomingHeaders { stream_id, read_fin: fin }];
        assert(heard(after).take(told.len() as int) =~= told);
    }
}

/// A request for a session that is over as soon as it comes is announced, and then ended
/// cleanly, and then told.
pub proof fn lemma_session_request_that_ends_at_once_is_told(
    state: CoreState,
    stream_id: u64,
    list: Seq<(Seq<u8>, Seq<u8>)>,
)
    requires
        state.transport.role == Role::Server,
        asks_for_session(list),
        state.settings_forwarded,
        state.peer_webtransport == Some(true),
        stream_id % 4 == 0,
        state.session matches Some(s) && is_quiet(s) && s.session is None && !is_history(
            s,
            stream_id,
        ) && s.streams.len() == 0,
        hears(state, 3),
    ensures
        ({
            let after = state.headers_arrived(stream_id, list, true);
            &&& heard(after) == heard(state).push(
                Told::Session(SessionEvent::Pending { session_id: stream_id }),
            ).push(
                Told::Session(
                    SessionEvent::Terminated {
                        session_id: stream_id,
                        reason: CloseReason::Clean,
                    },
                ),
            ).push(Told::Headers { stream_id, read_fin: true })
            &&& lookup(after.streams, stream_id) matches Some(stream) && is_new(
                stream,
                true,
                false,
                true,
            )
        }),
{
    reveal(CoreState::headers_arrived);
    reveal(CoreState::session_asked);
    reveal(CoreState::session_taken_up);
    let s = state.session->Some_0;
    lemma_one_session_at_a_time(s, stream_id);
    let pending = SessionEvent::Pending { session_id: stream_id };
    let announced = s.asked(stream_id).saying(pending);
    let received = RuntimeState {
        session: Some(SessionState { receive_done: true, ..announced.session->Some_0 }),
        ..announced
    };
    lemma_ends_of_the_connect_stream(announced, CloseReason::Clean, 0);
    lemma_session_end_is_complete(received, CloseReason::Clean);
    assert(s.streams =~= Seq::empty());
    let opened = RequestStream::opened(true, false, true);
    lemma_lookup_after_put(state.streams, stream_id, opened, stream_id);
    let told = CoreState {
        session: Some(announced.peer_ended(CloseReason::Clean)),
        streams: put(state.streams, stream_id, opened),
        ..state
    };
    let ended = SessionEvent::Terminated { session_id: stream_id, reason: CloseReason::Clean };
    assert(told.session->Some_0.actions.len() == 0);
    lemma_session_is_heard_once(told);
    assert(told.session->Some_0.events.map_values(as_told()) =~= seq![
        Told::Session(pending),
        Told::Session(ended),
    ]);
    assert(heard(told.flushed()) =~= heard(state).push(Told::Session(pending)).push(
        Told::Session(ended),
    ));
}

} // verus!
