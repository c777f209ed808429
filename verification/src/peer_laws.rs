//! What the peer takes of what it was sent, and what arrives of what it sends.

use vstd::prelude::*;

use crate::driver::transfer_laws::lemma_taken_bytes_are_gone;
use crate::peer_log::{
    body_bytes, direction_of, has_body, has_raw, ids_but, poll_from, raw_bytes, raw_fin,
    reset_code, without_body, without_raw, PeerEvent, PeerLogState, Sent,
};
use crate::pipe_config::DriverPipe;
use crate::request_stream::capped_sum;
use crate::table::{lemma_lookup_after_put, lookup, put};
use crate::transport::{
    granted, initial_credit, without_content, Role, StreamCredit, Transport, TransportEvent,
    TransportState,
};
use crate::transport_laws::lemma_sent_bytes_add_up;
use crate::wire::stream_prefix::{
    lemma_stream_prefix_round_trip, WebTransportStreamDirection,
};
use crate::wire::varint::varint_bytes;

verus! {

/// The body that the peer can read of a stream is what was sent of it, in order: an entry
/// adds its bytes to its own stream and to no other.
pub proof fn lemma_sent_body_adds_up(log: Seq<Sent>, entry: Sent, stream_id: u64)
    ensures
        body_bytes(Seq::empty(), stream_id).len() == 0,
        body_bytes(log.push(entry), stream_id) == body_bytes(log, stream_id) + match entry {
            Sent::Body { stream_id: id, data } => if id == stream_id {
                data
            } else {
                Seq::empty()
            },
            _ => Seq::empty(),
        },
{
    assert(log.push(entry).drop_last() =~= log);
    assert(body_bytes(log, stream_id) + Seq::<u8>::empty() =~= body_bytes(log, stream_id));
}

proof fn lemma_taken_body_is_gone(log: Seq<Sent>, stream_id: u64, other: u64)
    ensures
        body_bytes(without_body(log, stream_id), stream_id).len() == 0,
        other != stream_id ==> body_bytes(without_body(log, stream_id), other) == body_bytes(
            log,
            other,
        ),
        raw_bytes(without_body(log, stream_id), other) == raw_bytes(log, other),
    decreases log.len(),
{
    if log.len() > 0 {
        let front = log.drop_last();
        lemma_taken_body_is_gone(front, stream_id, other);
        let kept = without_body(front, stream_id);
        lemma_sent_body_adds_up(kept, log.last(), stream_id);
        lemma_sent_body_adds_up(kept, log.last(), other);
        lemma_sent_body_adds_up(front, log.last(), other);
        lemma_sent_bytes_add_up(kept, log.last(), other);
        lemma_sent_bytes_add_up(front, log.last(), other);
        assert(front.push(log.last()) =~= log);
        assert(body_bytes(front, other) + Seq::<u8>::empty() =~= body_bytes(front, other));
        assert(raw_bytes(front, other) + Seq::<u8>::empty() =~= raw_bytes(front, other));
        assert(body_bytes(kept, stream_id) + Seq::<u8>::empty() =~= body_bytes(kept, stream_id));
    }
}

/// The peer learns of what was sent first, first. A field section, a reset and an end are
/// taken when it learns of them; of a body it learns once, until it has read what waits; the
/// end of a stream comes behind its body.
pub proof fn lemma_peer_learns_in_order(
    first: Sent,
    rest: Seq<Sent>,
    announced: Seq<u64>,
)
    ensures
        ({
            let log = seq![first] + rest;
            let poll = poll_from(log, announced, 0);
            &&& first matches Sent::Headers { stream_id, .. } ==> poll.event == Some(
                (stream_id, PeerEvent::Headers),
            ) && poll.log == rest && poll.announced == announced
            &&& first matches Sent::Fin { stream_id } ==> poll.event == Some(
                (stream_id, PeerEvent::Finished),
            ) && poll.log == rest && poll.announced == announced
            &&& first matches Sent::Reset { stream_id, error_code } ==> (!has_raw(log, stream_id)
                ==> poll.event == Some((stream_id, PeerEvent::Reset { error_code })) && poll.log
                == rest && poll.announced == announced)
            &&& first matches Sent::Body { stream_id, .. } ==> {
                &&& !announced.contains(stream_id) ==> poll.event == Some(
                    (stream_id, PeerEvent::Data),
                ) && poll.log == log && poll.announced == announced.push(stream_id)
                &&& announced.contains(stream_id) && rest == seq![Sent::Fin { stream_id }]
                    ==> poll.event is None && poll.log == log
            }
            &&& poll_from(Seq::empty(), announced, 0).event is None
        }),
{
    let log = seq![first] + rest;
    assert(log.remove(0) =~= rest);
    assert(log.take(0) =~= Seq::<Sent>::empty());
    reveal_with_fuel(poll_from, 4);
    if let Sent::Body { stream_id, .. } = first {
        if announced.contains(stream_id) && rest == seq![Sent::Fin { stream_id }] {
            assert(log.take(1)[0] == first);
            assert(has_body(log.take(1), stream_id));
            assert(log[1] == rest[0]);
        }
    }
}

/// The peer learns of a frameless stream once its first bytes name a session: it learns which,
/// and what is left to read is what follows these bytes.
pub proof fn lemma_peer_learns_of_a_stream_by_its_front(
    stream_id: u64,
    session_id: u64,
    payload: Seq<u8>,
    fin: bool,
    announced: Seq<u64>,
)
    requires
        session_id <= 4_611_686_018_427_387_903,
        !announced.contains(stream_id),
    ensures
        ({
            let front = varint_bytes(
                if stream_id % 4 < 2 {
                    0x41
                } else {
                    0x54
                },
            ) + varint_bytes(session_id);
            let log = seq![Sent::Raw { stream_id, data: front + payload, fin }];
            let poll = poll_from(log, announced, 0);
            &&& poll.event == Some(
                (
                    stream_id,
                    PeerEvent::WebTransportStream {
                        session_id,
                        direction: if stream_id % 4 < 2 {
                            WebTransportStreamDirection::Bidi
                        } else {
                            WebTransportStreamDirection::Uni
                        },
                        prefix_len: front.len() as usize,
                    },
                ),
            )
            &&& raw_bytes(poll.log, stream_id) == payload && raw_fin(poll.log, stream_id) == fin
            &&& poll.announced == announced.push(stream_id)
        }),
{
    let direction = direction_of(stream_id);
    let front = varint_bytes(direction.signal_value()) + varint_bytes(session_id);
    let entry = Sent::Raw { stream_id, data: front + payload, fin };
    let log = seq![entry];
    let none = Seq::<Sent>::empty();
    assert(log =~= none.push(entry));
    lemma_sent_bytes_add_up(none, entry, stream_id);
    assert(raw_bytes(log, stream_id) =~= front + payload);
    lemma_stream_prefix_round_trip(direction, session_id, payload);
    assert((front + payload).skip(front.len() as int) =~= payload);
    lemma_taken_bytes_are_gone(log, stream_id, stream_id);
    let kept = without_raw(log, stream_id);
    lemma_sent_bytes_add_up(kept, Sent::Raw { stream_id, data: payload, fin }, stream_id);
    assert(raw_bytes(kept, stream_id) + payload =~= payload);
    reveal_with_fuel(poll_from, 2);
}

/// Other streams.
pub open spec fn all_but(stream_id: u64) -> spec_fn(u64) -> bool {
    |id: u64| id != stream_id
}

proof fn lemma_all_but(ids: Seq<u64>, stream_id: u64)
    ensures
        ids_but(ids, stream_id) == ids.filter(all_but(stream_id)),
    decreases ids.len(),
{
    reveal(Seq::filter);
    if ids.len() > 0 {
        lemma_all_but(ids.drop_last(), stream_id);
    }
}

/// The peer reads all of a body that it was told of at once; what waits on other streams stays.
/// It is told of what comes later again. What it reads it gives back as credit later, with two
/// bytes for the frame.
pub proof fn lemma_peer_reads_a_body_once(
    state: TransportState,
    stream_id: u64,
    other: u64,
)
    requires
        state.log.announced.contains(stream_id),
    ensures
        ({
            let after = state.peer_body_read(stream_id);
            let count = body_bytes(state.log.sent, stream_id).len();
            let read = state.credit_row(stream_id).read;
            &&& body_bytes(after.log.sent, stream_id).len() == 0
            &&& other != stream_id ==> body_bytes(after.log.sent, other) == body_bytes(
                state.log.sent,
                other,
            )
            &&& after.log.announced == state.log.announced.filter(all_but(stream_id))
            &&& after.credit_of(stream_id) == state.credit_of(stream_id)
            &&& count > 0 && read + count + 2 <= u64::MAX ==> after.credit_row(stream_id).read
                == read + count + 2
            &&& count == 0 ==> after.credit == state.credit
        }),
{
    reveal(TransportState::peer_body_read);
    lemma_taken_body_is_gone(state.log.sent, stream_id, other);
    lemma_all_but(state.log.announced, stream_id);
    let bytes = body_bytes(state.log.sent, stream_id);
    let row = state.credit_row(stream_id);
    let once = StreamCredit {
        read: capped_sum(row.read, bytes.len() as int),
        ..row
    };
    let credit = put(state.credit, stream_id, once);
    lemma_lookup_after_put(state.credit, stream_id, once, stream_id);
    let twice = StreamCredit {
        read: capped_sum(once.read, 2),
        ..once
    };
    lemma_lookup_after_put(credit, stream_id, twice, stream_id);
}

/// The peer reads all bytes of a frameless stream at once, and what waits on other streams
/// stays. Of a stream that was reset it reads nothing.
pub proof fn lemma_peer_reads_a_stream_once(
    state: TransportState,
    stream_id: u64,
    other: u64,
)
    ensures
        ({
            let after = state.peer_raw_read(stream_id);
            let count = raw_bytes(state.log.sent, stream_id).len();
            let fin = raw_fin(state.log.sent, stream_id);
            let read = state.credit_row(stream_id).read;
            let there = reset_code(state.log.sent, stream_id) is None && (count > 0 || fin);
            &&& !there ==> after == state
            &&& there ==> {
                &&& raw_bytes(after.log.sent, stream_id).len() == 0
                &&& !raw_fin(after.log.sent, stream_id)
                &&& after.credit_of(stream_id) == state.credit_of(stream_id)
                &&& read + count <= u64::MAX ==> after.credit_row(stream_id).read == read + count
            }
            &&& other != stream_id ==> raw_bytes(after.log.sent, other) == raw_bytes(
                state.log.sent,
                other,
            ) && raw_fin(after.log.sent, other) == raw_fin(state.log.sent, other)
        }),
{
    reveal(TransportState::peer_raw_read);
    lemma_taken_bytes_are_gone(state.log.sent, stream_id, other);
    let bytes = raw_bytes(state.log.sent, stream_id);
    let row = state.credit_row(stream_id);
    let once = StreamCredit {
        read: capped_sum(row.read, bytes.len() as int),
        ..row
    };
    lemma_lookup_after_put(state.credit, stream_id, once, stream_id);
}

/// What the peer sends of a body arrives in order, with the end behind it, unless this end
/// has refused the stream. The first refusal of a stream counts, on either side.
pub proof fn lemma_body_of_the_peer_arrives_in_order(
    state: TransportState,
    stream_id: u64,
    data: Vec<u8>,
    fin: bool,
    error_code: u64,
    later: u64,
)
    ensures
        ({
            let after = state.body_delivered(stream_id, data, fin);
            let bytes = TransportEvent::Data { stream_id, data };
            &&& lookup(state.stops_sent, stream_id) is Some ==> after == state
            &&& lookup(state.stops_sent, stream_id) is None ==> after == (TransportState {
                inbox: if fin {
                    state.inbox.push(bytes).push(TransportEvent::Finished { stream_id })
                } else {
                    state.inbox.push(bytes)
                },
                ..state
            })
        }),
        ({
            let refused = state.stop_delivered(stream_id, error_code);
            &&& lookup(state.stops_received, stream_id) is Some ==> refused == state
            &&& lookup(state.stops_received, stream_id) is None ==> lookup(
                refused.stops_received,
                stream_id,
            ) == Some(error_code) && refused.inbox == state.inbox.push(
                TransportEvent::Stopped { stream_id, error_code },
            )
            &&& refused.stop_delivered(stream_id, later) == refused
        }),
{
    reveal(TransportState::body_delivered);
    lemma_lookup_after_put(state.stops_received, stream_id, error_code, stream_id);
}

/// What is left of a stream that the peer resets: all events but those of its body.
pub open spec fn outlasts_a_reset(stream_id: u64) -> spec_fn(TransportEvent) -> bool {
    |event: TransportEvent|
        match event {
            TransportEvent::Data { stream_id: id, .. } => id != stream_id,
            TransportEvent::Finished { stream_id: id } => id != stream_id,
            _ => true,
        }
}

proof fn lemma_content_is_lost(inbox: Seq<TransportEvent>, stream_id: u64)
    ensures
        without_content(inbox, stream_id) == inbox.filter(outlasts_a_reset(stream_id)),
    decreases inbox.len(),
{
    reveal(Seq::filter);
    if inbox.len() > 0 {
        lemma_content_is_lost(inbox.drop_last(), stream_id);
    }
}

/// A reset of the peer comes behind what arrived before, and what the peer had sent of the
/// body of the stream and was not taken yet is lost.
pub proof fn lemma_reset_of_the_peer_loses_its_body(
    state: TransportState,
    stream_id: u64,
    error_code: u64,
)
    ensures
        state.reset_delivered(stream_id, error_code) == (TransportState {
            inbox: state.inbox.filter(outlasts_a_reset(stream_id)).push(
                TransportEvent::Reset { stream_id, error_code },
            ),
            ..state
        }),
{
    lemma_content_is_lost(state.inbox, stream_id);
}

/// A stream starts with the credit that the other end announced for such streams: for those
/// that it opened itself, for those that this end opened, and for those with one direction;
/// on a stream on which only the other end sends there is none.
pub proof fn lemma_credit_starts_as_announced(role: Role, pipe: DriverPipe, stream_id: u64)
    ensures
        ({
            let peer = if role == Role::Server {
                pipe.client
            } else {
                pipe.server
            };
            let mine = (stream_id % 2 == 0) == (role == Role::Client);
            let credit = initial_credit(role, pipe, stream_id);
            &&& stream_id % 4 < 2 && !mine ==> credit == peer.initial_max_stream_data_bidi_local
            &&& stream_id % 4 < 2 && mine ==> credit == peer.initial_max_stream_data_bidi_remote
            &&& stream_id % 4 >= 2 && mine ==> credit == peer.initial_max_stream_data_uni
            &&& stream_id % 4 >= 2 && !mine ==> credit == 0
        }),
{
}

/// Credit is neither lost nor made: what the peer has read comes back as credit, all of it
/// at once, and only when more than half of the first credit was read.
pub proof fn lemma_credit_comes_back(row: StreamCredit, first: u64)
    requires
        row.left + row.read <= u64::MAX,
    ensures
        ({
            let after = granted(row, first);
            &&& after.left + after.read == row.left + row.read
            &&& after.early == row.early
            &&& first - row.read < first / 2 ==> after.read == 0
            &&& first - row.read >= first / 2 ==> after == row
        }),
{
}

/// When both ends have caught up, the datagrams that waited have arrived in order, each stream
/// that was given back can be opened again, and what the peer read has come back as credit.
pub proof fn lemma_catching_up_loses_nothing(state: TransportState, i: int)
    requires
        state.bidi_limit + state.bidi_released <= u64::MAX,
        state.uni_limit + state.uni_released <= u64::MAX,
        0 <= i < state.credit.len(),
    ensures
        ({
            let after = state.advanced();
            &&& after.dgrams_arrived == state.dgrams_arrived + state.dgrams_queued
            &&& after.dgrams_queued.len() == 0
            &&& after.bidi_limit == state.bidi_limit + state.bidi_released
            &&& after.uni_limit == state.uni_limit + state.uni_released
            &&& after.bidi_released == 0 && after.uni_released == 0
            &&& after.credit.len() == state.credit.len()
            &&& after.credit[i] == (
                state.credit[i].0,
                granted(
                    state.credit[i].1,
                    initial_credit(state.role, state.pipe, state.credit[i].0),
                ),
            )
            &&& after.log == state.log && after.inbox == state.inbox && after.stops_sent
                == state.stops_sent && after.stops_received == state.stops_received
        }),
{
}

/// A new connection may open as many streams as the other end announced. Four of those with
/// one direction are in use by HTTP/3.
pub proof fn lemma_new_connection_has_its_limits(role: Role, pipe: DriverPipe)
    ensures
        ({
            let state = Transport::fresh(role, pipe);
            let peer = if role == Role::Server {
                pipe.client
            } else {
                pipe.server
            };
            &&& state.bidi_opened == 0 && state.uni_opened == 4
            &&& state.bidi_limit == peer.initial_max_streams_bidi
            &&& state.uni_limit == peer.initial_max_streams_uni
            &&& state.log.sent.len() == 0 && state.inbox.len() == 0 && state.credit.len() == 0
            &&& state.local_error is None && state.peer_error is None
        }),
{
}

/// The code of the first reset of a stream is the one that the peer finds.
pub proof fn lemma_first_reset_counts(log: Seq<Sent>, entry: Sent, stream_id: u64)
    ensures
        reset_code(Seq::empty(), stream_id) is None,
        reset_code(log.push(entry), stream_id) == (if reset_code(log, stream_id) is Some {
            reset_code(log, stream_id)
        } else {
            match entry {
                Sent::Reset { stream_id: id, error_code } => if id == stream_id {
                    Some(error_code)
                } else {
                    None
                },
                _ => None,
            }
        }),
{
    assert(log.push(entry).drop_last() =~= log);
}

/// Bytes that are lost are the last ones of their stream, and its end is lost with them.
pub proof fn lemma_last_bytes_are_lost(
    log: PeerLogState,
    stream_id: u64,
    count: int,
    other: u64,
)
    requires
        0 <= count <= raw_bytes(log.sent, stream_id).len(),
    ensures
        ({
            let after = log.raw_kept(stream_id, count);
            &&& raw_bytes(after.sent, stream_id) == raw_bytes(log.sent, stream_id).take(count)
            &&& !raw_fin(after.sent, stream_id)
            &&& other != stream_id ==> raw_bytes(after.sent, other) == raw_bytes(log.sent, other)
                && raw_fin(after.sent, other) == raw_fin(log.sent, other)
            &&& after.announced == log.announced
        }),
{
    reveal(PeerLogState::raw_kept);
    let rest = without_raw(log.sent, stream_id);
    let data = raw_bytes(log.sent, stream_id).subrange(0, count);
    let entry = Sent::Raw { stream_id, data, fin: false };
    lemma_taken_bytes_are_gone(log.sent, stream_id, other);
    lemma_sent_bytes_add_up(rest, entry, stream_id);
    lemma_sent_bytes_add_up(rest, entry, other);
    assert(raw_bytes(rest, stream_id) + data =~= raw_bytes(log.sent, stream_id).take(count));
    assert(raw_bytes(rest, other) + Seq::<u8>::empty() =~= raw_bytes(rest, other));
    if count == 0 {
        assert(raw_bytes(rest, stream_id) =~= raw_bytes(log.sent, stream_id).take(0));
    }
}

} // verus!
