//! What a new driver is, what one turn of it does, and who is told of the ends of streams.

use vstd::prelude::*;

use crate::body_buf::{recv_buf_size, BodyRecvBuf};
use crate::conn_close::{CloseMetrics, ConnectionError};
use crate::driver::arrival_laws::is_quiet;
use crate::driver::commands::{DriverState, H3Command};
use crate::driver::core_laws::heard;
use crate::driver::desk::{Desk, ReadyKind, Serving};
use crate::driver::events::{EventLaneState, Told};
use crate::driver::lease_laws::one_more;
use crate::driver::state::{CoreState, FlowFrame, H3Core, Notice, WaitingRequest};
use crate::driver::transfer_laws::{lemma_codes_tell_their_errors, row_of, tells_the_error};
use crate::pipe_config::DriverPipe;
use crate::settings::Http3Settings;
use crate::table::{lemma_lookup_after_put, lookup, put};
use crate::transport::Role;
use crate::wire::error_code::application_error;
use crate::wt::requests::{
    with_answers, Answer, Queued, WebTransportRequest,
    WebTransportStreamReceiveTerminalRetirementOutcome,
};
use crate::wt::snapshot::{SnapshotEnd, SnapshotStage};
use crate::wt::stream_ends::{
    EndingsState, StreamEnds, WebTransportStreamReceiveTerminal,
    WebTransportStreamSendTerminalOutcome,
};
use crate::wt::waiters::{ops_under, others, Waiter};

verus! {

/// Whether a number is the smaller of two.
pub open spec fn at_most(told: nat, a: usize, b: usize) -> bool {
    told <= a && told <= b && (told == a || told == b)
}

/// A new driver keeps to the bounds that it was given, has a place for sessions exactly if
/// they are offered, and has done, heard and promised nothing.
pub proof fn lemma_new_driver_keeps_to_its_settings(
    role: Role,
    pipe: DriverPipe,
    settings: Http3Settings,
)
    ensures
        ({
            let core = H3Core::fresh(role, pipe, settings);
            let desk = Desk::fresh(settings);
            &&& core.settings == settings && core.transport.role == role && core.transport.pipe
                == pipe
            &&& core.session is Some <==> settings.enable_webtransport
            &&& core.session matches Some(s) ==> {
                &&& s.max_pending == settings.webtransport_max_pending_streams
                &&& s.max_pending_per_session
                    == settings.webtransport_max_pending_streams_per_session
                &&& s.session is None && s.streams.len() == 0 && is_quiet(s) && s.retired is None
            }
            &&& core.datagrams.limits.max_count == settings.webtransport_max_pending_datagrams
            &&& core.datagrams.limits.max_count_per_flow
                == settings.webtransport_max_pending_datagrams_per_session
            &&& core.datagrams.limits.max_bytes
                == settings.webtransport_max_pending_datagram_bytes
            &&& core.datagrams.limits.max_bytes_per_flow
                == settings.webtransport_max_pending_datagram_bytes_per_session
            &&& heard(core).len() == 0 && core.events.lane.capacity == settings.event_capacity
                && core.events.lane.open
            &&& core.streams.len() == 0 && core.flows.len() == 0 && core.transport.log.sent.len()
                == 0 && core.failed is None && !core.established
            &&& desk.max_openings == settings.webtransport_max_pending_streams
            &&& desk.max_openings_per_session
                == settings.webtransport_max_pending_streams_per_session
            &&& desk.work_per_turn == settings.webtransport_max_session_work_per_callback
            &&& at_most(
                desk.endings.waiters.bound,
                settings.webtransport_max_send_terminal_waiters,
                settings.webtransport_max_send_terminal_waiters_per_session,
            )
            &&& desk.endings.max_states == desk.endings.waiters.bound
            &&& at_most(
                desk.session_waits.bound,
                settings.webtransport_max_session_terminal_waiters,
                settings.webtransport_max_session_terminal_waiters_per_session,
            )
            &&& desk.ledger.max_leases == settings.webtransport_command_capacity
            &&& desk.ledger.max_payload == settings.webtransport_max_stream_write_bytes
            &&& desk.ledger.max_retained_each
                == settings.webtransport_max_stream_write_lease_retained_bytes
            &&& desk.answers.len() == 0 && desk.waits.len() == 0 && desk.ready_waits.len() == 0
                && desk.writes.len() == 0 && desk.next_op == 0
        }),
{
}

/// The end of the peer's direction of a stream of the session is known from the turn in which
/// it is seen: as an end, or as a reset with its code and the application error that it
/// carries. What happens to a stream that waits for its session is seen later.
pub proof fn lemma_end_of_a_stream_is_seen(
    state: Serving,
    stream_id: u64,
    error_code: u64,
)
    requires
        row_of(state, stream_id) is Some,
        lookup(state.desk.endings.rows, stream_id) matches Some(ends) ==> ends.received is None
            && !ends.receive_retired && !ends.stop_sent,
        row_of(state, stream_id)->Some_0.local ==> row_of(state, stream_id)->Some_0.direction
            is Bidi,
    ensures
        ({
            let fin = Notice::Fin { stream_id };
            let reset = Notice::Reset { stream_id, error_code };
            let owned = row_of(state, stream_id)->Some_0.owned;
            let ended = state.notice_taken(fin);
            let broken = state.notice_taken(reset);
            &&& !owned ==> ended.core.notices == state.core.notices.push(fin)
                && broken.core.notices == state.core.notices.push(reset) && ended.desk
                == state.desk && broken.desk == state.desk
            &&& owned ==> {
                &&& lookup(ended.desk.endings.rows, stream_id) matches Some(ends)
                    && ends.received == Some(WebTransportStreamReceiveTerminal::Fin)
                &&& lookup(broken.desk.endings.rows, stream_id) matches Some(ends) && (
                ends.received matches Some(
                    WebTransportStreamReceiveTerminal::Reset {
                        wire_error_code,
                        application_error_code,
                    },
                ) && wire_error_code == error_code && tells_the_error(
                    wire_error_code,
                    application_error_code,
                ))
                &&& ended.desk.answers == state.desk.answers && broken.desk.answers
                    == state.desk.answers
            }
        }),
{
    reveal(Serving::notice_taken);
    lemma_codes_tell_their_errors(error_code);
    let rows = state.desk.endings.rows;
    let ends = state.desk.endings.ends(stream_id);
    let fin = StreamEnds { received: Some(WebTransportStreamReceiveTerminal::Fin), ..ends };
    let reset = StreamEnds {
        received: Some(
            WebTransportStreamReceiveTerminal::Reset {
                wire_error_code: error_code,
                application_error_code: application_error(error_code),
            },
        ),
        ..ends
    };
    lemma_lookup_after_put(rows, stream_id, fin, stream_id);
    lemma_lookup_after_put(rows, stream_id, reset, stream_id);
    lemma_end_that_matters_is_kept(
        state.with_endings(EndingsState { rows: put(rows, stream_id, fin), ..state.desk.endings }),
        stream_id,
    );
    lemma_end_that_matters_is_kept(
        state.with_endings(
            EndingsState { rows: put(rows, stream_id, reset), ..state.desk.endings },
        ),
        stream_id,
    );
}

proof fn lemma_end_that_matters_is_kept(state: Serving, stream_id: u64)
    requires
        row_of(state, stream_id) matches Some(row) && (row.local ==> row.direction is Bidi),
        lookup(state.desk.endings.rows, stream_id) matches Some(ends) && !ends.receive_retired
            && !ends.stop_sent,
    ensures
        state.stream_checked(stream_id).desk.endings == state.desk.endings,
        state.stream_checked(stream_id).desk.answers == state.desk.answers,
{
    reveal(Serving::stream_checked);
}

/// Those who wait for a stream.
pub open spec fn waits_for(stream_id: u64) -> spec_fn(Waiter) -> bool {
    |waiter: Waiter| waiter.key == stream_id
}

/// Those who wait for another stream.
pub open spec fn waits_for_another(stream_id: u64) -> spec_fn(Waiter) -> bool {
    |waiter: Waiter| waiter.key != stream_id
}

/// What whoever waits is told.
pub open spec fn as_told_that(outcome: WebTransportStreamSendTerminalOutcome) -> spec_fn(
    Waiter,
) -> (u64, Answer) {
    |waiter: Waiter| (waiter.op, Answer::SendEnd(outcome))
}

proof fn lemma_those_who_wait(
    list: Seq<Waiter>,
    stream_id: u64,
    outcome: WebTransportStreamSendTerminalOutcome,
    answers: Seq<(u64, Answer)>,
)
    ensures
        with_answers(
            answers,
            ops_under(list, stream_id),
            Answer::SendEnd(outcome),
        ) == answers + list.filter(waits_for(stream_id)).map_values(as_told_that(outcome)),
        others(list, stream_id) == list.filter(waits_for_another(stream_id)),
    decreases list.len(),
{
    reveal(Seq::filter);
    let told = with_answers(
        answers,
        ops_under(list, stream_id),
        Answer::SendEnd(outcome),
    );
    if list.len() > 0 {
        lemma_those_who_wait(list.drop_last(), stream_id, outcome, answers);
        let front = list.drop_last().filter(waits_for(stream_id));
        let before = with_answers(
            answers,
            ops_under(list.drop_last(), stream_id),
            Answer::SendEnd(outcome),
        );
        if list.last().key == stream_id {
            assert(told =~= before.push((list.last().op, Answer::SendEnd(outcome))));
            assert(front.push(list.last()).map_values(as_told_that(outcome))
                =~= front.map_values(as_told_that(outcome)).push(
                as_told_that(outcome)(list.last()),
            ));
            assert(told =~= answers + front.push(list.last()).map_values(as_told_that(outcome)));
        }
    } else {
        assert(list.filter(waits_for(stream_id)).map_values(as_told_that(outcome))
            =~= Seq::empty());
        assert(told =~= answers + Seq::<(u64, Answer)>::empty());
    }
}

/// Whoever waits for another stream goes on waiting, in order.
pub proof fn lemma_others_wait(list: Seq<Waiter>, stream_id: u64)
    ensures
        others(list, stream_id) == list.filter(waits_for_another(stream_id)),
    decreases list.len(),
{
    reveal(Seq::filter);
    if list.len() > 0 {
        lemma_others_wait(list.drop_last(), stream_id);
    }
}

/// When this end ends its direction of a stream, everybody who waits for that is told that
/// it is closed, in order, and nobody else; they wait no more.
pub proof fn lemma_closing_is_told_to_everybody_who_waits(state: Serving, stream_id: u64)
    ensures
        ({
            let after = state.send_direction_closed(stream_id);
            let list = state.desk.endings.waiters.list;
            &&& after.desk.answers == state.desk.answers + list.filter(
                waits_for(stream_id),
            ).map_values(
                as_told_that(WebTransportStreamSendTerminalOutcome::Closed { stream_id }),
            )
            &&& after.desk.endings.waiters.list == list.filter(waits_for_another(stream_id))
            &&& after.core.transport.log == state.core.transport.log
        }),
{
    reveal(Serving::send_direction_closed);
    reveal(Serving::stream_checked);
    reveal(Serving::stream_forgotten);
    lemma_those_who_wait(
        state.desk.endings.waiters.list,
        stream_id,
        WebTransportStreamSendTerminalOutcome::Closed { stream_id },
        state.desk.answers,
    );
}

/// When the application wants to hear no more of what it sends on a stream, everybody who
/// waits for its end is told so, in order, and then the request itself. Nothing is sent. For
/// what it receives just the request is answered.
pub proof fn lemma_retiring_is_told_to_everybody_who_waits(
    state: Serving,
    op: u64,
    session_id: u64,
    stream_id: u64,
)
    ensures
        state.stream_selection(session_id, stream_id, true) is None ==> {
            let after = state.send_retirement_requested(op, session_id, stream_id);
            let list = state.desk.endings.waiters.list;
            let outcome = WebTransportStreamSendTerminalOutcome::Retired {
                session_id,
                stream_id,
            };
            &&& after.desk.answers == (state.desk.answers + list.filter(
                waits_for(stream_id),
            ).map_values(as_told_that(outcome))).push((op, Answer::SendEnd(outcome)))
            &&& after.desk.endings.waiters.list == list.filter(waits_for_another(stream_id))
            &&& after.core.transport.log == state.core.transport.log
                && after.core.transport.stops_sent == state.core.transport.stops_sent
        },
        state.stream_selection(session_id, stream_id, false) is None ==> {
            let after = state.receive_retirement_requested(op, session_id, stream_id);
            &&& after.desk.answers == state.desk.answers.push(
                (
                    op,
                    Answer::ReceiveRetired(
                        WebTransportStreamReceiveTerminalRetirementOutcome::Retired {
                            session_id,
                            stream_id,
                        },
                    ),
                ),
            )
            &&& after.desk.endings.waiters == state.desk.endings.waiters
            &&& after.core.transport.log == state.core.transport.log
                && after.core.transport.stops_sent == state.core.transport.stops_sent
        },
        state.stream_selection(session_id, stream_id, true) matches Some(error)
            ==> state.send_retirement_requested(op, session_id, stream_id) == state.answered(
            op,
            Answer::SendEnd(WebTransportStreamSendTerminalOutcome::Rejected(error)),
        ),
{
    reveal(Serving::send_retirement_requested);
    reveal(Serving::receive_retirement_requested);
    reveal(Serving::stream_checked);
    reveal(Serving::stream_forgotten);
    lemma_those_who_wait(
        state.desk.endings.waiters.list,
        stream_id,
        WebTransportStreamSendTerminalOutcome::Retired { session_id, stream_id },
        state.desk.answers,
    );
}

/// In a turn of writing every stream has its turn once, in order: what is written for a list
/// of streams is what is written for its parts, one after the other.
pub proof fn lemma_every_stream_has_its_turn(
    state: CoreState,
    first: Seq<u64>,
    second: Seq<u64>,
    stream_id: u64,
)
    ensures
        state.streams_written(first + second) == state.streams_written(first).streams_written(
            second,
        ),
        state.streams_written(seq![stream_id]) == state.abandonment_handled(
            stream_id,
        ).end_offered(stream_id).frame_handled(stream_id),
        state.streams_written(Seq::empty()) == state,
        state.tended(first + second) == state.tended(first).tended(second),
        state.tended(seq![stream_id]) == state.abandonment_handled(stream_id).end_offered(
            stream_id,
        ),
        state.tended(Seq::empty()) == state,
    decreases second.len(),
{
    reveal_with_fuel(CoreState::streams_written, 2);
    reveal_with_fuel(CoreState::tended, 2);
    assert(seq![stream_id].drop_last() =~= Seq::<u64>::empty());
    if second.len() == 0 {
        assert(first + second =~= first);
        assert(second =~= Seq::empty());
    } else {
        assert((first + second).drop_last() =~= first + second.drop_last());
        assert((first + second).last() == second.last());
        lemma_every_stream_has_its_turn(state, first, second.drop_last(), stream_id);
    }
}

/// Commands, requests that waited, and what the application handed over for flows are carried
/// out one after the other, the oldest first, and none twice.
pub proof fn lemma_oldest_command_is_carried_out_first(
    state: CoreState,
    commands: Seq<H3Command>,
    requests: Seq<WaitingRequest>,
    frames: Seq<FlowFrame>,
    from: int,
)
    requires
        0 <= from,
    ensures
        from < commands.len() ==> state.commanded_from(commands, from) == state.commanded(
            commands[from],
        ).commanded_from(commands, from + 1),
        from >= commands.len() ==> state.commanded_from(commands, from) == state,
        from < requests.len() ==> state.retried_from(requests, from) == state.request_left(
            requests[from].request_id,
            requests[from].fin,
        ).retried_from(requests, from + 1),
        from >= requests.len() ==> state.retried_from(requests, from) == state,
        from < frames.len() ==> state.flow_frames_handled(frames, from)
            == state.flow_frame_handled(frames[from]).flow_frames_handled(frames, from + 1),
        from >= frames.len() ==> state.flow_frames_handled(frames, from) == state,
{
}

/// A turn in which reading fails does nothing more: commands and requests wait. In any other
/// turn every command that waits is carried out, and of the requests as many as the turn has
/// work for, the oldest first.
pub proof fn lemma_turn_goes_as_far_as_it_can(state: DriverState)
    ensures
        ({
            let after = state.turned();
            let read = state.core.read();
            &&& read.failed is Some ==> after == (DriverState { core: read, ..state })
            &&& read.failed is None ==> {
                &&& after.commands.items.len() == 0
                &&& after.commands.capacity == state.commands.capacity && after.commands.open
                    == state.commands.open
                &&& exists|count: int|
                    0 <= count <= state.requests.items.len() && after.requests.items
                        == #[trigger] state.requests.items.skip(count)
            }
        }),
{
    reveal(DriverState::turned);
    reveal(DriverState::served);
    reveal(DriverState::commands_processed);
    let read = state.with_core(state.core.read());
    let commanded = read.commands_processed();
    let written = commanded.with_core(commanded.core.written());
    let list = written.requests.items;
    let count = written.serving().turn_begun().share(list.len()) as int;
    assert(list == state.requests.items);
    assert(0 <= count <= list.len());
    assert(list.skip(count) == state.requests.items.skip(count));
}

/// The events that wait are taken in the order in which they were told, and each is counted.
pub proof fn lemma_events_are_taken_in_order(lane: EventLaneState, event: Told)
    requires
        lane.lane.open,
        lane.lane.items.len() < lane.lane.capacity,
    ensures
        ({
            let after = lane.offered(event);
            &&& after.lane.items.last() == event && after.lane.items.len()
                == lane.lane.items.len() + 1
            &&& after.taken().lane.items == after.lane.items.drop_first()
            &&& lane.lane.items.len() > 0 ==> after.lane.items[0] == lane.lane.items[0]
            &&& one_more(lane.stats.admitted_total, after.stats.admitted_total)
            &&& after.stats.overload_total == lane.stats.overload_total
                && after.stats.receiver_closed_total == lane.stats.receiver_closed_total
            &&& after.taken().stats == after.stats
        }),
{
    assert(lane.offered(event).lane.items.skip(1) =~= lane.offered(
        event,
    ).lane.items.drop_first());
}

/// A buffer for a body is as large as the body needs, but at least 4096 bytes and at most
/// 65536. A read uses up what it reads of the room that it found, and a buffer that is used
/// up is given up.
pub proof fn lemma_buffer_is_used_up(buf: BodyRecvBuf, len: int)
    requires
        0 <= len <= 65_536,
    ensures
        recv_buf_size(len) == (if len < 4096 {
            4096
        } else {
            len
        }),
        recv_buf_size(65_537) == 65_536,
        ({
            let found = if buf.room is Some && buf.room->Some_0 >= len {
                buf.room->Some_0 as int
            } else {
                recv_buf_size(len)
            };
            let after = buf.after_read(len);
            &&& found == len ==> after.room is None
            &&& found > len ==> (after.room matches Some(room) && room == found - len)
        }),
{
}

/// The end of a connection is counted by who ended it and on which layer: an error of the
/// application on the upper one, and any other on the lower one.
pub proof fn lemma_close_is_counted_where_it_came_from(
    metrics: CloseMetrics,
    error: ConnectionError,
    other: Option<ConnectionError>,
)
    ensures
        ({
            let local = metrics.recorded(true, Some(error), other);
            let peer = metrics.recorded(false, other, Some(error));
            &&& error.is_app ==> one_more(metrics.local_h3, local.local_h3) && local.local_quic
                == metrics.local_quic && one_more(metrics.peer_h3, peer.peer_h3)
                && peer.peer_quic == metrics.peer_quic
            &&& !error.is_app ==> one_more(metrics.local_quic, local.local_quic)
                && local.local_h3 == metrics.local_h3 && one_more(
                metrics.peer_quic,
                peer.peer_quic,
            ) && peer.peer_h3 == metrics.peer_h3
            &&& local.peer_h3 == metrics.peer_h3 && local.peer_quic == metrics.peer_quic
            &&& peer.local_h3 == metrics.local_h3 && peer.local_quic == metrics.local_quic
            &&& metrics.recorded(true, None, other) == metrics && metrics.recorded(
                false,
                other,
                None,
            ) == metrics
        }),
{
}

/// Each request that somebody waits for is carried out as what it asks for: reads as reads,
/// refusals as refusals, and so on. A sample is of the path as it is.
pub proof fn lemma_requests_are_carried_out_as_asked(
    state: Serving,
    item: Queued,
    queued: nat,
    capacity: nat,
)
    requires
        !state.desk.cancelled.contains(item.op),
    ensures
        ({
            let after = state.request_handled(item, queued, capacity);
            let op = item.op;
            match item.request {
                WebTransportRequest::Open { session_id, direction } => after
                    == state.open_requested(op, session_id, direction),
                WebTransportRequest::Write { session_id, stream_id, data, fin } => after
                    == state.write_requested(op, session_id, stream_id, data@, fin),
                WebTransportRequest::WriteLease { session_id, stream_id, lease, fin } => after
                    == state.lease_write_requested(op, session_id, stream_id, lease@, fin),
                WebTransportRequest::Read { session_id, stream_id, max } => after
                    == state.read_requested(op, session_id, stream_id, max),
                WebTransportRequest::Reset { session_id, stream_id, application_error } => after
                    == state.reset_requested(op, session_id, stream_id, application_error),
                WebTransportRequest::Stop { session_id, stream_id, application_error } => after
                    == state.stop_requested(op, session_id, stream_id, application_error),
                WebTransportRequest::AwaitSendEnd { session_id, stream_id } => after
                    == state.send_end_requested(op, session_id, stream_id),
                WebTransportRequest::RetireSend { session_id, stream_id } => after
                    == state.send_retirement_requested(op, session_id, stream_id),
                WebTransportRequest::RetireReceive { session_id, stream_id } => after
                    == state.receive_retirement_requested(op, session_id, stream_id),
                WebTransportRequest::AwaitSessionEnd { session_id } => after
                    == state.session_end_requested(op, session_id),
                WebTransportRequest::SendDatagram { session_id, datagram } => after
                    == state.datagram_send_requested(op, session_id, datagram@),
                WebTransportRequest::ReceiveDatagram { session_id } => after
                    == state.datagram_read_requested(op, session_id),
                WebTransportRequest::MaxDatagram { session_id } => after
                    == state.max_datagram_requested(op, session_id),
                WebTransportRequest::AwaitReadable { session_id, stream_id } => after
                    == state.ready_requested(op, session_id, ReadyKind::Readable { stream_id }),
                WebTransportRequest::AwaitWritable { retry } => after
                    == state.retry_wait_requested(op, retry),
                WebTransportRequest::AwaitDatagram { session_id } => after
                    == state.ready_requested(op, session_id, ReadyKind::Datagram),
                WebTransportRequest::AwaitDatagramRoom { session_id } => after
                    == state.ready_requested(op, session_id, ReadyKind::DatagramRoom),
                WebTransportRequest::RetentionStats => after.desk.answers
                    == state.desk.answers.push(
                    (op, Answer::Stats(state.retained(queued, capacity))),
                ) && after.core == state.core,
                WebTransportRequest::LiveSnapshot => after.core == state.core
                    && after.desk.answers == state.desk.answers && (state.desk.snapshot.stage
                    == Some(SnapshotStage::Waiting) ==> (
                after.desk.snapshot.stage matches Some(SnapshotStage::Sampled(sample))
                    && sample.path == state.core.transport.path)),
            }
        }),
{
    reveal(Serving::request_handled);
    reveal(Serving::stats_requested);
}

/// After the last turn nothing is taken any more: both lanes are closed, no request waits,
/// and samples are answered with the reason.
pub proof fn lemma_after_the_last_turn_nothing_is_taken(state: DriverState, end: SnapshotEnd)
    requires
        state.desk.snapshot.ended is None,
    ensures
        ({
            let after = state.requests_ended(end);
            &&& !after.commands.open && !after.requests.open
            &&& after.requests.items.len() == 0
            &&& after.commands.items == state.commands.items
        }),
{
    reveal(DriverState::requests_ended);
}

} // verus!
