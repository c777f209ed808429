//! What becomes of the bytes of frameless streams that arrive, of the settings of the peer,
//! and of what has to wait.

use vstd::prelude::*;

use crate::driver::arrival_laws::is_quiet;
use crate::driver::core_laws::{as_told, heard, hears, lemma_session_is_heard_once};
use crate::driver::events::Told;
use crate::driver::reads::{waits_behind, withdrawn};
use crate::driver::state::{CoreState, Flow, Notice};
use crate::driver::transfer_laws::lemma_taken_bytes_are_gone;
use crate::peer_log::{raw_bytes, raw_fin, without_raw, Sent};
use crate::request_stream::RequestStream;
use crate::table::{lemma_lookup_after_put, lookup, put};
use crate::transport::TransportEvent;
use crate::transport_laws::lemma_sent_bytes_add_up;
use crate::wire::datagram::{datagram_bytes, lemma_datagram_round_trip};
use crate::wire::stream_prefix::{lemma_stream_prefix_round_trip, WebTransportStreamDirection};
use crate::wire::varint::varint_bytes;
use crate::wt::datagrams::Received;
use crate::wt::runtime::{SessionPhase, SessionStream};
use crate::wt::runtime_laws::lemma_arriving_stream_finds_its_session;
use crate::wt::types::SessionEvent;

verus! {

/// The bytes that open a frameless stream of a session.
pub open spec fn opening_bytes(stream_id: u64, session_id: u64) -> Seq<u8> {
    varint_bytes(
        if stream_id % 4 < 2 {
            0x41
        } else {
            0x54
        },
    ) + varint_bytes(session_id)
}

/// A stream that opens with the bytes of the active session, in however many pieces they
/// arrive, is the session's: the application is told of it with the length of these bytes,
/// and what can be read of it is what follows them.
pub proof fn lemma_stream_of_the_peer_reaches_its_session(
    state: CoreState,
    stream_id: u64,
    data: Seq<u8>,
    fin: bool,
    session_id: u64,
    payload: Seq<u8>,
)
    requires
        state.session matches Some(s) && is_quiet(s) && (s.session matches Some(session)
            && session.id == session_id && session.phase == SessionPhase::Active) && lookup(
            s.streams,
            stream_id,
        ) is None,
        session_id <= 4_611_686_018_427_387_903,
        lookup(state.raw_seen, stream_id) is None,
        raw_bytes(state.raw.sent, stream_id) + data == opening_bytes(stream_id, session_id)
            + payload,
        hears(state, 1),
    ensures
        ({
            let after = state.raw_arrived(stream_id, data, fin);
            let row = SessionStream {
                session_id,
                direction: if stream_id % 4 < 2 {
                    WebTransportStreamDirection::Bidi
                } else {
                    WebTransportStreamDirection::Uni
                },
                local: false,
                owned: true,
                prefix_len: opening_bytes(stream_id, session_id).len() as usize,
            };
            &&& heard(after) == heard(state).push(
                Told::Session(
                    SessionEvent::AssociatedStream {
                        session_id,
                        stream_id,
                        direction: row.direction,
                        prefix_len: row.prefix_len,
                    },
                ),
            )
            &&& raw_bytes(after.raw.sent, stream_id) == payload
            &&& raw_fin(after.raw.sent, stream_id) == fin
            &&& after.session matches Some(r) && lookup(r.streams, stream_id) == Some(row)
            &&& after.notices == (if fin {
                state.notices.push(Notice::Fin { stream_id })
            } else {
                state.notices
            })
            &&& after.transport == state.transport && after.streams == state.streams
            &&& lookup(after.raw_seen, stream_id) is Some
        }),
{
    reveal(CoreState::raw_arrived);
    let s = state.session->Some_0;
    let direction = if stream_id % 4 < 2 {
        WebTransportStreamDirection::Bidi
    } else {
        WebTransportStreamDirection::Uni
    };
    let prefix = opening_bytes(stream_id, session_id);
    lemma_stream_prefix_round_trip(direction, session_id, payload);
    assert((prefix + payload).skip(prefix.len() as int) =~= payload);
    lemma_arriving_stream_finds_its_session(
        s,
        stream_id,
        session_id,
        prefix.len() as usize,
        state.local_openings,
    );
    let kept = without_raw(state.raw.sent, stream_id);
    lemma_taken_bytes_are_gone(state.raw.sent, stream_id, stream_id);
    lemma_sent_bytes_add_up(kept, Sent::Raw { stream_id, data: payload, fin }, stream_id);
    assert(raw_bytes(kept, stream_id) + payload =~= payload);
    lemma_lookup_after_put(state.raw_seen, stream_id, true, stream_id);
    let settled = state.raw_settled(stream_id).raw_waiting(stream_id, payload, fin);
    let owned = settled.with_session(
        s.stream_arrived(
            stream_id,
            session_id,
            prefix.len() as usize,
            state.local_openings,
        ),
    );
    lemma_session_is_heard_once(owned);
    let event = SessionEvent::AssociatedStream {
        session_id,
        stream_id,
        direction,
        prefix_len: prefix.len() as usize,
    };
    assert(owned.session->Some_0.events.map_values(as_told()) =~= seq![Told::Session(event)]);
    assert(heard(owned.flushed()) =~= heard(state).push(Told::Session(event)));
    let row = SessionStream {
        session_id,
        direction,
        local: false,
        owned: true,
        prefix_len: prefix.len() as usize,
    };
    lemma_lookup_after_put(s.streams, stream_id, row, stream_id);
}

/// Later bytes of a stream of a session wait behind those that are there, and so does its
/// end, which is noted. Bytes of a stream that is nobody's are dropped.
pub proof fn lemma_later_bytes_wait_in_order(
    state: CoreState,
    stream_id: u64,
    data: Seq<u8>,
    fin: bool,
    other: u64,
)
    requires
        state.session is Some,
        lookup(state.raw_seen, stream_id) is Some,
    ensures
        ({
            let after = state.raw_arrived(stream_id, data, fin);
            let known = lookup(state.session->Some_0.streams, stream_id) is Some;
            &&& !known ==> after == state
            &&& known ==> {
                &&& raw_bytes(after.raw.sent, stream_id) == raw_bytes(state.raw.sent, stream_id)
                    + data
                &&& raw_fin(after.raw.sent, stream_id) == (raw_fin(state.raw.sent, stream_id)
                    || fin)
                &&& other != stream_id ==> raw_bytes(after.raw.sent, other) == raw_bytes(
                    state.raw.sent,
                    other,
                ) && raw_fin(after.raw.sent, other) == raw_fin(state.raw.sent, other)
                &&& after.notices == (if fin {
                    state.notices.push(Notice::Fin { stream_id })
                } else {
                    state.notices
                })
                &&& after == (CoreState { raw: after.raw, notices: after.notices, ..state })
            }
        }),
{
    reveal(CoreState::raw_arrived);
    lemma_sent_bytes_add_up(state.raw.sent, Sent::Raw { stream_id, data, fin }, stream_id);
    lemma_sent_bytes_add_up(state.raw.sent, Sent::Raw { stream_id, data, fin }, other);
    assert(raw_bytes(state.raw.sent, other) + Seq::<u8>::empty() =~= raw_bytes(
        state.raw.sent,
        other,
    ));
}

/// The settings of the peer are told once. A request for a session that waited for them is
/// taken up if the peer offers WebTransport: the session is announced, and then its request.
pub proof fn lemma_settings_are_told_once(state: CoreState)
    requires
        state.session matches Some(s) ==> is_quiet(s),
        state.deferred matches Some(request) ==> !request.fin && state.session is Some
            && state.peer_webtransport == Some(true),
        hears(state, 3),
    ensures
        ({
            let after = state.settings_told();
            let due = state.peer_webtransport is Some && !state.settings_forwarded;
            &&& !due ==> after == state
            &&& due && state.deferred is None ==> after == (CoreState {
                settings_forwarded: true,
                events: after.events,
                ..state
            }) && heard(after) == heard(state).push(Told::IncomingSettings)
            &&& due && state.deferred is Some ==> {
                let stream_id = state.deferred->Some_0.stream_id;
                &&& heard(after) == heard(state).push(Told::IncomingSettings).push(
                    Told::Session(SessionEvent::Pending { session_id: stream_id }),
                ).push(Told::Headers { stream_id, read_fin: false })
                &&& after.deferred is None && after.settings_forwarded
                &&& lookup(after.streams, stream_id) matches Some(stream) && stream.session
                    && stream.live
                &&& after.transport == state.transport
            }
            &&& after.settings_told() == after
        }),
{
    reveal(CoreState::settings_told);
    reveal(CoreState::session_taken_up);
    let due = state.peer_webtransport is Some && !state.settings_forwarded;
    if due && state.deferred is Some {
        let stream_id = state.deferred->Some_0.stream_id;
        let told = (CoreState { settings_forwarded: true, deferred: None, ..state }).told(
            Told::IncomingSettings,
        );
        let pending = SessionEvent::Pending { session_id: stream_id };
        let opened = RequestStream::opened(false, false, true);
        lemma_lookup_after_put(state.streams, stream_id, opened, stream_id);
        let announced = CoreState {
            session: Some(state.session->Some_0.saying(pending)),
            streams: put(state.streams, stream_id, opened),
            ..told
        };
        lemma_session_is_heard_once(announced);
        assert(announced.session->Some_0.events.map_values(as_told()) =~= seq![
            Told::Session(pending),
        ]);
        assert(heard(announced.flushed()) =~= heard(state).push(Told::IncomingSettings).push(
            Told::Session(pending),
        ));
    }
}

/// What has to wait for the reader is bytes of the body of an ordinary stream that is open,
/// while others wait for a reader that is there.
pub proof fn lemma_only_bytes_wait_for_the_reader(state: CoreState, event: TransportEvent)
    ensures
        state.blocks(event) <==> (event matches TransportEvent::Data { stream_id, .. } && (lookup(
            state.streams,
            stream_id,
        ) matches Some(stream) && stream.live && !stream.session && !stream.recv_done
            && stream.receiver && stream.inbound is Some)),
{
}

/// Events are handled in the order in which they arrived. What has to wait is kept, and so
/// is what comes behind it on the same stream; what comes on another stream goes on.
pub proof fn lemma_events_of_a_stream_keep_their_order(
    state: CoreState,
    stream_id: u64,
    data: Vec<u8>,
    next: TransportEvent,
)
    requires
        state.failed is None,
    ensures
        ({
            let event = TransportEvent::Data { stream_id, data };
            let (after, kept) = state.reads_from(seq![event, next], 0, Seq::empty());
            let same = match next {
                TransportEvent::Headers { stream_id: id, .. } => id == stream_id,
                TransportEvent::Data { stream_id: id, .. } => id == stream_id,
                TransportEvent::Finished { stream_id: id } => id == stream_id,
                TransportEvent::Reset { stream_id: id, .. } => id == stream_id,
                TransportEvent::Raw { stream_id: id, .. } => id == stream_id,
                _ => false,
            };
            let first = state.handled(event);
            &&& state.blocks(event) && same ==> after == state && kept == seq![event, next]
            &&& state.blocks(event) && !same && !state.blocks(next) ==> after == state.handled(
                next,
            ) && kept == seq![event]
            &&& !state.blocks(event) && first.failed is None && !first.blocks(next) ==> after
                == first.handled(next) && kept.len() == 0
            &&& !state.blocks(event) && first.failed is Some ==> after == first && kept == seq![
                next,
            ]
        }),
{
    reveal_with_fuel(CoreState::reads_from, 4);
    let event = TransportEvent::Data { stream_id, data };
    let inbox = seq![event, next];
    let none = Seq::<TransportEvent>::empty();
    assert(!waits_behind(none, event));
    assert(!waits_behind(none, next));
    assert(none.push(event)[0] == event);
    assert(none.push(event) =~= seq![event]);
    assert(none.push(next) =~= seq![next]);
    assert(none.push(event).push(next) =~= inbox);
}

/// A datagram that can belong to no session is kept where its flow is known. Where there are
/// no sessions and flows are offered, it opens its flow, which is told, and is kept then. It
/// is dropped otherwise, and so is one without a number.
pub proof fn lemma_datagram_opens_its_flow(
    state: CoreState,
    flow_id: u64,
    payload: Seq<u8>,
)
    requires
        flow_id <= 4_611_686_018_427_387_903,
        state.session is None,
        hears(state, 1),
    ensures
        ({
            let after = state.datagram_arrived(varint_bytes(flow_id) + payload);
            let known = lookup(state.flows, flow_id) is Some;
            let kept = state.datagrams.arrived(
                Received { flow_id, payload, allocation: payload.len() },
            );
            &&& known ==> after == (CoreState { datagrams: kept, ..state })
            &&& !known && state.settings.enable_extended_connect ==> {
                &&& lookup(after.flows, flow_id) == Some(Flow { stream_id: None })
                &&& heard(after) == heard(state).push(Told::NewFlow { flow_id })
                &&& after.datagrams == kept
            }
            &&& !known && !state.settings.enable_extended_connect ==> after == state
            &&& state.datagram_arrived(Seq::empty()) == state
        }),
{
    reveal(CoreState::datagram_arrived);
    lemma_datagram_round_trip(flow_id, payload);
    assert(datagram_bytes(flow_id, payload) == varint_bytes(flow_id) + payload);
    lemma_lookup_after_put(state.flows, flow_id, Flow { stream_id: None }, flow_id);
}

/// A request for a session that waited for the settings of a peer that turns out not to offer
/// WebTransport is turned away in both directions with the code 0x10e, and there is no session.
pub proof fn lemma_waiting_session_is_turned_away(state: CoreState)
    requires
        state.peer_webtransport == Some(false),
        !state.settings_forwarded,
        state.deferred matches Some(request) && (state.session matches Some(s) && is_quiet(s)
            && s.streams.len() == 0 && (s.session matches Some(session) && session.id
            == request.stream_id)) && lookup(state.transport.stops_sent, request.stream_id) is None,
        hears(state, 1),
    ensures
        ({
            let after = state.settings_told();
            let stream_id = state.deferred->Some_0.stream_id;
            &&& heard(after) == heard(state).push(Told::IncomingSettings)
            &&& after.transport.log.sent == state.transport.log.sent.push(
                Sent::Reset { stream_id, error_code: 0x10e },
            )
            &&& lookup(after.transport.stops_sent, stream_id) == Some(0x10eu64)
            &&& after.session matches Some(r) && r.session is None && (
            r.retired matches Some(highest) && stream_id <= highest)
            &&& after.deferred is None && after.streams == state.streams
        }),
{
    reveal(CoreState::settings_told);
    let stream_id = state.deferred->Some_0.stream_id;
    let s = state.session->Some_0;
    let told = (CoreState { settings_forwarded: true, deferred: None, ..state }).told(
        Told::IncomingSettings,
    );
    let gone = told.with_session(withdrawn(s));
    assert(s.streams =~= Seq::empty());
    assert(s.actions =~= Seq::empty());
    lemma_session_is_heard_once(gone);
    assert(withdrawn(s).events.map_values(as_told()) =~= Seq::<Told>::empty());
    assert(heard(gone.flushed()) =~= heard(told));
    lemma_lookup_after_put(state.transport.stops_sent, stream_id, 0x10eu64, stream_id);
}

} // verus!
