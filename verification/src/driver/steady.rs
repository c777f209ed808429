//! What the application was told of the streams of a session does not change behind its
//! back: once it wants to hear no more of a direction, that stays so.

use vstd::prelude::*;

use crate::driver::desk::{DeskState, Opening, ReadyKind, ReadyWait, Serving};
use crate::driver::session_ends::notice_stream;
use crate::driver::state::Notice;
use crate::table::{
    distinct, lemma_distinct_is_kept, lemma_lookup_after_put, lemma_lookup_after_without, lookup,
    put, without,
};
use crate::wire::error_code::application_error;
use crate::wt::requests::{Answer, Queued};
use crate::wt::runtime::RuntimeState;
use crate::wt::stream_ends::{stopped_with, EndingsState, WebTransportStreamReceiveTerminal};
use crate::wt::waiters::{WaitState, Waiter};
use crate::wt::write_lease::{LeaseState, WebTransportStreamWriteRetry};

verus! {

pub broadcast proof fn lemma_put_row<V>(rows: Seq<(u64, V)>, id: u64, value: V, other: u64)
    ensures
        #[trigger] lookup(put(rows, id, value), other) == (if other == id {
            Some(value)
        } else {
            lookup(rows, other)
        }),
{
    lemma_lookup_after_put(rows, id, value, other);
}

pub broadcast proof fn lemma_removed_row<V>(rows: Seq<(u64, V)>, id: u64, other: u64)
    requires
        distinct(rows),
    ensures
        #[trigger] lookup(without(rows, id), other) == (if other == id {
            None
        } else {
            lookup(rows, other)
        }),
{
    lemma_lookup_after_without(rows, id, other);
}

pub broadcast proof fn lemma_put_is_distinct<V>(rows: Seq<(u64, V)>, id: u64, value: V)
    requires
        distinct(rows),
    ensures
        distinct(#[trigger] put(rows, id, value)),
{
    lemma_distinct_is_kept(rows, id, value);
}

pub broadcast proof fn lemma_without_is_distinct<V>(rows: Seq<(u64, V)>, id: u64)
    requires
        distinct(rows),
    ensures
        distinct(#[trigger] without(rows, id)),
{
    if rows.len() > 0 {
        lemma_distinct_is_kept(rows, id, rows[0].1);
    }
}

/// Whether a session knows a stream.
pub open spec fn knows_stream(session: Option<RuntimeState>, stream_id: u64) -> bool {
    session matches Some(s) && lookup(s.streams, stream_id) is Some
}

impl Serving {
    /// Whether no stream has two rows in a table.
    pub open spec fn is_tidy(self) -> bool {
        distinct(self.desk.endings.rows) && (self.core.session matches Some(s) ==> distinct(
            s.streams,
        ))
    }

    /// Whether the application wants to hear no more of its direction of a stream.
    pub open spec fn is_retired(self, stream_id: u64) -> bool {
        self.desk.endings.ends(stream_id).send_retired
    }

    /// Whether the session stays as it is in `later`, but for streams that are forgotten,
    /// and what was retired of the others stays retired.
    pub open spec fn steady_to(self, later: Serving) -> bool {
        &&& match (self.core.session, later.core.session) {
            (Some(a), Some(b)) => b == (RuntimeState { streams: b.streams, ..a }),
            (None, None) => true,
            _ => false,
        }
        &&& self.is_tidy() ==> later.is_tidy()
        &&& later.desk.serving == self.desk.serving || (later.desk.serving matches Some(id)
            && self.selection(id) is None)
        &&& self.is_tidy() ==> forall|id: u64|
            #[trigger] knows_stream(later.core.session, id) ==> knows_stream(
                self.core.session,
                id,
            ) && (self.is_retired(id) ==> later.is_retired(id))
    }
}

pub broadcast proof fn lemma_stream_forgotten_is_steady(state: Serving, stream_id: u64)
    ensures
        state.steady_to(#[trigger] state.stream_forgotten(stream_id)),
{
    broadcast use {
        lemma_put_row,
        lemma_removed_row,
        lemma_put_is_distinct,
        lemma_without_is_distinct,
    };

    reveal(Serving::stream_forgotten);
}

pub broadcast proof fn lemma_stream_checked_is_steady(state: Serving, stream_id: u64)
    ensures
        state.steady_to(#[trigger] state.stream_checked(stream_id)),
{
    broadcast use {
        lemma_stream_forgotten_is_steady,
        lemma_put_row,
        lemma_removed_row,
        lemma_put_is_distinct,
        lemma_without_is_distinct,
    };

    reveal(Serving::stream_checked);
}

pub broadcast proof fn lemma_send_direction_closed_is_steady(state: Serving, stream_id: u64)
    ensures
        state.steady_to(#[trigger] state.send_direction_closed(stream_id)),
{
    broadcast use {
        lemma_stream_checked_is_steady,
        lemma_put_row,
        lemma_removed_row,
        lemma_put_is_distinct,
        lemma_without_is_distinct,
    };

    reveal(Serving::send_direction_closed);
}

pub broadcast proof fn lemma_reset_requested_is_steady(
    state: Serving,
    op: u64,
    session_id: u64,
    stream_id: u64,
    application_error: u32,
)
    ensures
        state.steady_to(
            #[trigger] state.reset_requested(op, session_id, stream_id, application_error),
        ),
{
    broadcast use lemma_send_direction_closed_is_steady;

    reveal(Serving::reset_requested);
}

pub broadcast proof fn lemma_stop_requested_is_steady(
    state: Serving,
    op: u64,
    session_id: u64,
    stream_id: u64,
    application_error: u32,
)
    ensures
        state.steady_to(
            #[trigger] state.stop_requested(op, session_id, stream_id, application_error),
        ),
{
    broadcast use {
        lemma_stream_checked_is_steady,
        lemma_put_row,
        lemma_removed_row,
        lemma_put_is_distinct,
        lemma_without_is_distinct,
    };

    reveal(Serving::stop_requested);
}

pub broadcast proof fn lemma_send_end_requested_is_steady(
    state: Serving,
    op: u64,
    session_id: u64,
    stream_id: u64,
)
    ensures
        state.steady_to(#[trigger] state.send_end_requested(op, session_id, stream_id)),
{
    reveal(Serving::send_end_requested);
}

pub broadcast proof fn lemma_send_retirement_requested_is_steady(
    state: Serving,
    op: u64,
    session_id: u64,
    stream_id: u64,
)
    ensures
        state.steady_to(#[trigger] state.send_retirement_requested(op, session_id, stream_id)),
{
    broadcast use {
        lemma_stream_checked_is_steady,
        lemma_put_row,
        lemma_removed_row,
        lemma_put_is_distinct,
        lemma_without_is_distinct,
    };

    reveal(Serving::send_retirement_requested);
}

pub broadcast proof fn lemma_receive_retirement_requested_is_steady(
    state: Serving,
    op: u64,
    session_id: u64,
    stream_id: u64,
)
    ensures
        state.steady_to(#[trigger] state.receive_retirement_requested(op, session_id, stream_id)),
{
    broadcast use {
        lemma_stream_checked_is_steady,
        lemma_put_row,
        lemma_removed_row,
        lemma_put_is_distinct,
        lemma_without_is_distinct,
    };

    reveal(Serving::receive_retirement_requested);
}

pub broadcast proof fn lemma_write_tried_is_steady(
    state: Serving,
    op: u64,
    stream_id: u64,
    data: Seq<u8>,
    fin: bool,
)
    ensures
        state.steady_to(#[trigger] state.write_tried(op, stream_id, data, fin)),
{
    broadcast use lemma_send_direction_closed_is_steady;

    reveal(Serving::write_tried);
}

pub broadcast proof fn lemma_write_requested_is_steady(
    state: Serving,
    op: u64,
    session_id: u64,
    stream_id: u64,
    data: Seq<u8>,
    fin: bool,
)
    ensures
        state.steady_to(#[trigger] state.write_requested(op, session_id, stream_id, data, fin)),
{
    broadcast use lemma_write_tried_is_steady;

    reveal(Serving::write_requested);
}

pub broadcast proof fn lemma_read_requested_is_steady(
    state: Serving,
    op: u64,
    session_id: u64,
    stream_id: u64,
    max: usize,
)
    ensures
        state.steady_to(#[trigger] state.read_requested(op, session_id, stream_id, max)),
{
    broadcast use {
        lemma_stream_checked_is_steady,
        lemma_put_row,
        lemma_removed_row,
        lemma_put_is_distinct,
        lemma_without_is_distinct,
    };

    reveal(Serving::read_requested);
}

pub broadcast proof fn lemma_lease_shown_is_steady(
    state: Serving,
    op: u64,
    session_id: u64,
    stream_id: u64,
    lease: LeaseState,
    fin: bool,
)
    ensures
        state.steady_to(#[trigger] state.lease_shown(op, session_id, stream_id, lease, fin)),
{
    broadcast use lemma_send_direction_closed_is_steady;

    reveal(Serving::lease_shown);
}

pub broadcast proof fn lemma_lease_write_requested_is_steady(
    state: Serving,
    op: u64,
    session_id: u64,
    stream_id: u64,
    lease: LeaseState,
    fin: bool,
)
    ensures
        state.steady_to(
            #[trigger] state.lease_write_requested(op, session_id, stream_id, lease, fin),
        ),
{
    broadcast use lemma_lease_shown_is_steady;

    reveal(Serving::lease_write_requested);
}

pub broadcast proof fn lemma_ready_requested_is_steady(
    state: Serving,
    op: u64,
    session_id: u64,
    kind: ReadyKind,
)
    ensures
        state.steady_to(#[trigger] state.ready_requested(op, session_id, kind)),
{
    reveal(Serving::ready_requested);
}

pub broadcast proof fn lemma_retry_wait_requested_is_steady(
    state: Serving,
    op: u64,
    retry: WebTransportStreamWriteRetry,
)
    ensures
        state.steady_to(#[trigger] state.retry_wait_requested(op, retry)),
{
    broadcast use lemma_ready_requested_is_steady;

    reveal(Serving::retry_wait_requested);
}

pub broadcast proof fn lemma_datagram_send_requested_is_steady(
    state: Serving,
    op: u64,
    session_id: u64,
    datagram: Seq<u8>,
)
    ensures
        state.steady_to(#[trigger] state.datagram_send_requested(op, session_id, datagram)),
{
    reveal(Serving::datagram_send_requested);
}

pub broadcast proof fn lemma_datagram_read_requested_is_steady(
    state: Serving,
    op: u64,
    session_id: u64,
)
    ensures
        state.steady_to(#[trigger] state.datagram_read_requested(op, session_id)),
{
    reveal(Serving::datagram_read_requested);
}

pub broadcast proof fn lemma_max_datagram_requested_is_steady(
    state: Serving,
    op: u64,
    session_id: u64,
)
    ensures
        state.steady_to(#[trigger] state.max_datagram_requested(op, session_id)),
{
}

pub broadcast proof fn lemma_stats_requested_is_steady(
    state: Serving,
    op: u64,
    queued: nat,
    capacity: nat,
)
    ensures
        state.steady_to(#[trigger] state.stats_requested(op, queued, capacity)),
{
    reveal(Serving::stats_requested);
}

pub broadcast proof fn lemma_session_end_requested_is_steady(
    state: Serving,
    op: u64,
    session_id: u64,
)
    ensures
        state.steady_to(#[trigger] state.session_end_requested(op, session_id)),
{
    reveal(Serving::session_end_requested);
}

/// Whether the table of ends stays in order in `after`, and what was retired stays
/// retired.
pub open spec fn keeps_retired(before: EndingsState, after: EndingsState) -> bool {
    &&& distinct(before.rows) ==> distinct(after.rows)
    &&& forall|id: u64|
        before.ends(id).send_retired ==> (#[trigger] after.ends(id)).send_retired
}

broadcast proof fn lemma_peer_stopped_keeps_retired(
    endings: EndingsState,
    stream_id: u64,
    error_code: u64,
)
    ensures
        keeps_retired(endings, #[trigger] endings.peer_stopped(stream_id, error_code)),
{
    broadcast use {lemma_put_row, lemma_put_is_distinct};

}

broadcast proof fn lemma_receive_ended_keeps_retired(
    endings: EndingsState,
    stream_id: u64,
    terminal: WebTransportStreamReceiveTerminal,
)
    ensures
        keeps_retired(endings, #[trigger] endings.receive_ended(stream_id, terminal)),
{
    broadcast use {lemma_put_row, lemma_put_is_distinct};

}

proof fn lemma_with_endings_is_steady(state: Serving, endings: EndingsState)
    requires
        keeps_retired(state.desk.endings, endings),
    ensures
        state.steady_to(state.with_endings(endings)),
{
}

pub broadcast proof fn lemma_notice_taken_is_steady(state: Serving, notice: Notice)
    ensures
        state.steady_to(#[trigger] state.notice_taken(notice)),
{
    broadcast use {lemma_peer_stopped_keeps_retired, lemma_receive_ended_keeps_retired};

    reveal(Serving::notice_taken);
    let stream_id = notice_stream(notice);
    let endings = state.desk.endings;
    match notice {
        Notice::Stopped { error_code, .. } => {
            let told = state.send_waiters_told(
                endings.woken_by_stop(stream_id),
                stopped_with(stream_id, error_code),
            );
            lemma_with_endings_is_steady(told, endings.peer_stopped(stream_id, error_code));
        },
        Notice::Fin { .. } => {
            let ended = endings.receive_ended(stream_id, WebTransportStreamReceiveTerminal::Fin);
            lemma_with_endings_is_steady(state, ended);
            lemma_stream_checked_is_steady(state.with_endings(ended), stream_id);
        },
        Notice::Reset { error_code, .. } => {
            let ended = endings.receive_ended(
                stream_id,
                WebTransportStreamReceiveTerminal::Reset {
                    wire_error_code: error_code,
                    application_error_code: application_error(error_code),
                },
            );
            lemma_with_endings_is_steady(state, ended);
            lemma_stream_checked_is_steady(state.with_endings(ended), stream_id);
        },
    }
}

pub broadcast proof fn lemma_notices_taken_is_steady(
    state: Serving,
    notices: Seq<Notice>,
    from: int,
)
    requires
        0 <= from,
    ensures
        state.steady_to(#[trigger] state.notices_taken(notices, from)),
    decreases notices.len() - from,
{
    broadcast use lemma_notice_taken_is_steady;

    if 0 <= from < notices.len() {
        lemma_notices_taken_is_steady(state.notice_taken(notices[from]), notices, from + 1);
    }
}

pub broadcast proof fn lemma_notices_seen_is_steady(state: Serving)
    ensures
        state.steady_to(#[trigger] state.notices_seen()),
{
    broadcast use lemma_notices_taken_is_steady;

    reveal(Serving::notices_seen);
}

pub broadcast proof fn lemma_datagrams_settled_is_steady(state: Serving)
    ensures
        state.steady_to(#[trigger] state.datagrams_settled()),
{
    reveal(Serving::datagrams_settled);
}

pub broadcast proof fn lemma_session_waits_tried_is_steady(
    state: Serving,
    list: Seq<Waiter>,
    from: int,
)
    ensures
        state.steady_to(#[trigger] state.session_waits_tried(list, from)),
    decreases list.len() - from,
{
    if from < list.len() {
        let kept = Serving {
            desk: DeskState {
                session_waits: WaitState {
                    list: state.desk.session_waits.list.push(list[from]),
                    ..state.desk.session_waits
                },
                ..state.desk
            },
            ..state
        };
        lemma_session_waits_tried_is_steady(kept, list, from + 1);
        let told = state.answered(
            list[from].op,
            Answer::SessionEnd(state.session_end(list[from].key)),
        );
        lemma_session_waits_tried_is_steady(told, list, from + 1);
    }
}

pub broadcast proof fn lemma_sessions_settled_is_steady(state: Serving)
    ensures
        state.steady_to(#[trigger] state.sessions_settled()),
{
    broadcast use lemma_session_waits_tried_is_steady;

    reveal(Serving::sessions_settled);
}

pub broadcast proof fn lemma_all_ready_tried_is_steady(
    state: Serving,
    list: Seq<ReadyWait>,
    from: int,
)
    ensures
        state.steady_to(#[trigger] state.all_ready_tried(list, from)),
    decreases list.len() - from,
{
    if from < list.len() {
        lemma_all_ready_tried_is_steady(state.ready_tried(list[from]), list, from + 1);
    }
}

pub broadcast proof fn lemma_ready_settled_is_steady(state: Serving)
    ensures
        state.steady_to(#[trigger] state.ready_settled()),
{
    broadcast use lemma_all_ready_tried_is_steady;

    reveal(Serving::ready_settled);
}

pub broadcast proof fn lemma_request_dropped_is_steady(state: Serving, item: Queued)
    ensures
        state.steady_to(#[trigger] state.request_dropped(item)),
{
}

pub broadcast proof fn lemma_openings_counted_is_steady(state: Serving)
    ensures
        state.steady_to(#[trigger] state.openings_counted()),
{
}

pub broadcast proof fn lemma_opening_dropped_is_steady(state: Serving, opening: Opening)
    ensures
        state.steady_to(#[trigger] state.opening_dropped(opening)),
{
    broadcast use {
        lemma_put_row,
        lemma_removed_row,
        lemma_put_is_distinct,
        lemma_without_is_distinct,
    };

    reveal(Serving::opening_dropped);
}

pub broadcast proof fn lemma_opening_failed_is_steady(state: Serving, opening: Opening)
    ensures
        state.steady_to(#[trigger] state.opening_failed(opening)),
{
    broadcast use lemma_opening_dropped_is_steady;

}

pub broadcast proof fn lemma_opening_abandoned_is_steady(state: Serving, opening: Opening)
    ensures
        state.steady_to(#[trigger] state.opening_abandoned(opening)),
{
    broadcast use lemma_opening_dropped_is_steady;

    reveal(Serving::opening_abandoned);
}

} // verus!
