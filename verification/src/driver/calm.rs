//! Most of what a turn does for the application leaves the streams alone that are on
//! their way to be opened.

use vstd::prelude::*;

use crate::driver::counts::lemma_raw_sent_grows;
use crate::driver::desk::{DeskState, Opening, ReadyKind, ReadyWait, Serving};
use crate::driver::session_ends::Teardown;
use crate::driver::state::Notice;
use crate::peer_log::direction_of;
use crate::wt::requests::{Answer, Queued, WebTransportOpenStreamOutcome};
use crate::wt::waiters::{WaitState, Waiter};
use crate::wt::write_lease::{LeaseState, WebTransportStreamWriteRetry};

verus! {

/// The stream that an answer says was opened.
pub open spec fn opened_as(answer: Answer) -> Option<u64> {
    match answer {
        Answer::Open(WebTransportOpenStreamOutcome::Opened { stream_id }) => Some(stream_id),
        _ => None,
    }
}

impl Serving {
    /// Whether `later` has the same streams on their way as this state: no request
    /// began to wait or waits no more, none has a stream that it did not have, and the
    /// transport opened streams within the peer's limits only.
    pub open spec fn calm_to(self, later: Serving) -> bool {
        &&& self.core.transport.grows_to(later.core.transport)
        &&& later.desk.waits == self.desk.waits
        &&& later.desk.openings == self.desk.openings
        &&& later.desk.begun == self.desk.begun
        &&& self.desk.answers.len() <= later.desk.answers.len()
        &&& forall|i: int|
            0 <= i < self.desk.answers.len() ==> #[trigger] later.desk.answers[i]
                == self.desk.answers[i]
        &&& forall|i: int|
            self.desk.answers.len() <= i < later.desk.answers.len() ==> opened_as(
                (#[trigger] later.desk.answers[i]).1,
            ) is None
        &&& later.desk.left <= self.desk.left
        &&& later.desk.next_op == self.desk.next_op
    }
}

pub broadcast proof fn lemma_stream_forgotten_is_calm(state: Serving, stream_id: u64)
    ensures
        state.calm_to(#[trigger] state.stream_forgotten(stream_id)),
{
    reveal(Serving::stream_forgotten);
}

pub broadcast proof fn lemma_stream_checked_is_calm(state: Serving, stream_id: u64)
    ensures
        state.calm_to(#[trigger] state.stream_checked(stream_id)),
{
    broadcast use lemma_stream_forgotten_is_calm;

    reveal(Serving::stream_checked);
}

pub broadcast proof fn lemma_send_direction_closed_is_calm(state: Serving, stream_id: u64)
    ensures
        state.calm_to(#[trigger] state.send_direction_closed(stream_id)),
{
    broadcast use lemma_stream_checked_is_calm;

    reveal(Serving::send_direction_closed);
}

pub broadcast proof fn lemma_reset_requested_is_calm(
    state: Serving,
    op: u64,
    session_id: u64,
    stream_id: u64,
    application_error: u32,
)
    ensures
        state.calm_to(
            #[trigger] state.reset_requested(op, session_id, stream_id, application_error),
        ),
{
    broadcast use lemma_send_direction_closed_is_calm;

    reveal(Serving::reset_requested);
}

pub broadcast proof fn lemma_stop_requested_is_calm(
    state: Serving,
    op: u64,
    session_id: u64,
    stream_id: u64,
    application_error: u32,
)
    ensures
        state.calm_to(
            #[trigger] state.stop_requested(op, session_id, stream_id, application_error),
        ),
{
    broadcast use lemma_stream_checked_is_calm;

    reveal(Serving::stop_requested);
}

pub broadcast proof fn lemma_send_end_requested_is_calm(
    state: Serving,
    op: u64,
    session_id: u64,
    stream_id: u64,
)
    ensures
        state.calm_to(#[trigger] state.send_end_requested(op, session_id, stream_id)),
{
    reveal(Serving::send_end_requested);
}

pub broadcast proof fn lemma_send_retirement_requested_is_calm(
    state: Serving,
    op: u64,
    session_id: u64,
    stream_id: u64,
)
    ensures
        state.calm_to(#[trigger] state.send_retirement_requested(op, session_id, stream_id)),
{
    broadcast use lemma_stream_checked_is_calm;

    reveal(Serving::send_retirement_requested);
}

pub broadcast proof fn lemma_receive_retirement_requested_is_calm(
    state: Serving,
    op: u64,
    session_id: u64,
    stream_id: u64,
)
    ensures
        state.calm_to(#[trigger] state.receive_retirement_requested(op, session_id, stream_id)),
{
    broadcast use lemma_stream_checked_is_calm;

    reveal(Serving::receive_retirement_requested);
}

pub broadcast proof fn lemma_write_tried_is_calm(
    state: Serving,
    op: u64,
    stream_id: u64,
    data: Seq<u8>,
    fin: bool,
)
    ensures
        state.calm_to(#[trigger] state.write_tried(op, stream_id, data, fin)),
{
    broadcast use {lemma_raw_sent_grows, lemma_send_direction_closed_is_calm};

    reveal(Serving::write_tried);
}

pub broadcast proof fn lemma_write_requested_is_calm(
    state: Serving,
    op: u64,
    session_id: u64,
    stream_id: u64,
    data: Seq<u8>,
    fin: bool,
)
    ensures
        state.calm_to(#[trigger] state.write_requested(op, session_id, stream_id, data, fin)),
{
    broadcast use lemma_write_tried_is_calm;

    reveal(Serving::write_requested);
}

pub broadcast proof fn lemma_read_requested_is_calm(
    state: Serving,
    op: u64,
    session_id: u64,
    stream_id: u64,
    max: usize,
)
    ensures
        state.calm_to(#[trigger] state.read_requested(op, session_id, stream_id, max)),
{
    broadcast use lemma_stream_checked_is_calm;

    reveal(Serving::read_requested);
}

pub broadcast proof fn lemma_lease_shown_is_calm(
    state: Serving,
    op: u64,
    session_id: u64,
    stream_id: u64,
    lease: LeaseState,
    fin: bool,
)
    ensures
        state.calm_to(#[trigger] state.lease_shown(op, session_id, stream_id, lease, fin)),
{
    broadcast use {lemma_raw_sent_grows, lemma_send_direction_closed_is_calm};

    reveal(Serving::lease_shown);
}

pub broadcast proof fn lemma_lease_write_requested_is_calm(
    state: Serving,
    op: u64,
    session_id: u64,
    stream_id: u64,
    lease: LeaseState,
    fin: bool,
)
    ensures
        state.calm_to(
            #[trigger] state.lease_write_requested(op, session_id, stream_id, lease, fin),
        ),
{
    broadcast use lemma_lease_shown_is_calm;

    reveal(Serving::lease_write_requested);
}

pub broadcast proof fn lemma_ready_requested_is_calm(
    state: Serving,
    op: u64,
    session_id: u64,
    kind: ReadyKind,
)
    ensures
        state.calm_to(#[trigger] state.ready_requested(op, session_id, kind)),
{
    reveal(Serving::ready_requested);
}

pub broadcast proof fn lemma_retry_wait_requested_is_calm(
    state: Serving,
    op: u64,
    retry: WebTransportStreamWriteRetry,
)
    ensures
        state.calm_to(#[trigger] state.retry_wait_requested(op, retry)),
{
    broadcast use lemma_ready_requested_is_calm;

    reveal(Serving::retry_wait_requested);
}

pub broadcast proof fn lemma_datagram_send_requested_is_calm(
    state: Serving,
    op: u64,
    session_id: u64,
    datagram: Seq<u8>,
)
    ensures
        state.calm_to(#[trigger] state.datagram_send_requested(op, session_id, datagram)),
{
    reveal(Serving::datagram_send_requested);
}

pub broadcast proof fn lemma_datagram_read_requested_is_calm(
    state: Serving,
    op: u64,
    session_id: u64,
)
    ensures
        state.calm_to(#[trigger] state.datagram_read_requested(op, session_id)),
{
    reveal(Serving::datagram_read_requested);
}

pub broadcast proof fn lemma_max_datagram_requested_is_calm(
    state: Serving,
    op: u64,
    session_id: u64,
)
    ensures
        state.calm_to(#[trigger] state.max_datagram_requested(op, session_id)),
{
}

pub broadcast proof fn lemma_stats_requested_is_calm(
    state: Serving,
    op: u64,
    queued: nat,
    capacity: nat,
)
    ensures
        state.calm_to(#[trigger] state.stats_requested(op, queued, capacity)),
{
    reveal(Serving::stats_requested);
}

pub broadcast proof fn lemma_session_end_requested_is_calm(state: Serving, op: u64, session_id: u64)
    ensures
        state.calm_to(#[trigger] state.session_end_requested(op, session_id)),
{
    reveal(Serving::session_end_requested);
}

pub broadcast proof fn lemma_notice_taken_is_calm(state: Serving, notice: Notice)
    ensures
        state.calm_to(#[trigger] state.notice_taken(notice)),
{
    broadcast use lemma_stream_checked_is_calm;

    reveal(Serving::notice_taken);
}

pub broadcast proof fn lemma_notices_taken_is_calm(state: Serving, notices: Seq<Notice>, from: int)
    requires
        0 <= from,
    ensures
        state.calm_to(#[trigger] state.notices_taken(notices, from)),
    decreases notices.len() - from,
{
    broadcast use lemma_notice_taken_is_calm;

    if 0 <= from < notices.len() {
        lemma_notices_taken_is_calm(state.notice_taken(notices[from]), notices, from + 1);
    }
}

pub broadcast proof fn lemma_notices_seen_is_calm(state: Serving)
    ensures
        state.calm_to(#[trigger] state.notices_seen()),
{
    broadcast use lemma_notices_taken_is_calm;

    reveal(Serving::notices_seen);
}

pub broadcast proof fn lemma_datagrams_settled_is_calm(state: Serving)
    ensures
        state.calm_to(#[trigger] state.datagrams_settled()),
{
    reveal(Serving::datagrams_settled);
}

pub broadcast proof fn lemma_session_waits_tried_is_calm(
    state: Serving,
    list: Seq<Waiter>,
    from: int,
)
    ensures
        state.calm_to(#[trigger] state.session_waits_tried(list, from)),
    decreases list.len() - from,
{
    if from < list.len() {
        let kept = Serving {
            desk: DeskState {
                session_waits: WaitState {
                    list: state.desk.session_waits.list.push(list[from]),
                    ..state.desk.session_waits
                },
                ..state.desk
            },
            ..state
        };
        lemma_session_waits_tried_is_calm(kept, list, from + 1);
        let told = state.answered(
            list[from].op,
            Answer::SessionEnd(state.session_end(list[from].key)),
        );
        lemma_session_waits_tried_is_calm(told, list, from + 1);
    }
}

pub broadcast proof fn lemma_sessions_settled_is_calm(state: Serving)
    ensures
        state.calm_to(#[trigger] state.sessions_settled()),
{
    broadcast use lemma_session_waits_tried_is_calm;

    reveal(Serving::sessions_settled);
}

pub broadcast proof fn lemma_all_ready_tried_is_calm(
    state: Serving,
    list: Seq<ReadyWait>,
    from: int,
)
    ensures
        state.calm_to(#[trigger] state.all_ready_tried(list, from)),
    decreases list.len() - from,
{
    if from < list.len() {
        lemma_all_ready_tried_is_calm(state.ready_tried(list[from]), list, from + 1);
    }
}

pub broadcast proof fn lemma_ready_settled_is_calm(state: Serving)
    ensures
        state.calm_to(#[trigger] state.ready_settled()),
{
    broadcast use lemma_all_ready_tried_is_calm;

    reveal(Serving::ready_settled);
}

pub broadcast proof fn lemma_request_dropped_is_calm(state: Serving, item: Queued)
    ensures
        state.calm_to(#[trigger] state.request_dropped(item)),
{
}

pub broadcast proof fn lemma_openings_counted_is_calm(state: Serving)
    ensures
        state.calm_to(#[trigger] state.openings_counted()),
{
}

pub broadcast proof fn lemma_locals_released_is_calm(state: Serving, list: Seq<u64>, from: int)
    ensures
        state.calm_to(#[trigger] state.locals_released(list, from)),
    decreases list.len() - from,
{
    if from < list.len() {
        let next = Serving {
            core: state.core.stream_released(direction_of(list[from])),
            ..state
        };
        lemma_locals_released_is_calm(next, list, from + 1);
    }
}

pub broadcast proof fn lemma_streams_left_is_calm(
    state: Serving,
    session_id: u64,
    teardown: Teardown,
)
    ensures
        state.calm_to(#[trigger] state.streams_left(session_id, teardown)),
{
    broadcast use lemma_locals_released_is_calm;

    reveal(Serving::streams_left);
}

pub broadcast proof fn lemma_opening_dropped_is_calm(state: Serving, opening: Opening)
    ensures
        state.calm_to(#[trigger] state.opening_dropped(opening)),
{
    reveal(Serving::opening_dropped);
}

pub broadcast proof fn lemma_opening_failed_is_calm(state: Serving, opening: Opening)
    ensures
        state.calm_to(#[trigger] state.opening_failed(opening)),
{
    broadcast use lemma_opening_dropped_is_calm;

}

pub broadcast proof fn lemma_opening_abandoned_is_calm(state: Serving, opening: Opening)
    ensures
        state.calm_to(#[trigger] state.opening_abandoned(opening)),
{
    broadcast use {lemma_raw_sent_grows, lemma_opening_dropped_is_calm};

    reveal(Serving::opening_abandoned);
}

} // verus!
