//! The table of the streams of a session stays in order: whatever the driver does, no
//! stream has two rows in it.

use vstd::prelude::*;

use crate::driver::commands::H3Command;
use crate::driver::events::Told;
use crate::driver::flows::StreamShutdown;
use crate::driver::state::{CoreState, FlowFrame, WaitingRequest};
use crate::driver::steady::lemma_put_is_distinct;
use crate::request_stream::{RequestStream, WriteStep};
use crate::table::distinct;
use crate::transport::{TransportEvent, TransportState};
use crate::wt::runtime::{handed_over, other_streams, SessionStream};
use crate::wt::types::{SessionEvent, StreamAction};

verus! {

impl CoreState {
    /// Whether no stream of the session has two rows in the table.
    pub open spec fn is_tidy(self) -> bool {
        self.session matches Some(s) ==> distinct(s.streams)
    }

    /// Whether there is a table in `later` if there is one here, and it is in order if it
    /// is in order here.
    pub open spec fn tidy_to(self, later: CoreState) -> bool {
        (self.session is Some ==> later.session is Some) && (self.is_tidy() ==> later.is_tidy())
    }
}

pub broadcast proof fn lemma_other_streams_are_distinct(rows: Seq<(u64, SessionStream)>, id: u64)
    requires
        distinct(rows),
    ensures
        distinct(#[trigger] other_streams(rows, id)),
{
    lemma_other_streams_are_rows(rows, id);
}

proof fn lemma_other_streams_are_rows(rows: Seq<(u64, SessionStream)>, id: u64)
    requires
        distinct(rows),
    ensures
        distinct(other_streams(rows, id)),
        forall|i: int|
            0 <= i < other_streams(rows, id).len() ==> rows.contains(
                #[trigger] other_streams(rows, id)[i],
            ),
    decreases rows.len(),
{
    if rows.len() > 0 {
        let rest = rows.drop_last();
        lemma_other_streams_are_rows(rest, id);
        let others = other_streams(rest, id);
        assert forall|i: int| 0 <= i < others.len() implies rows.contains(#[trigger] others[i])
            && others[i].0 != rows.last().0 by {
            let at = choose|j: int| 0 <= j < rest.len() && rest[j] == others[i];
            assert(rest.contains(others[i]));
            assert(rows[at] == others[i]);
        }
        assert(rows.contains(rows.last()));
    }
}

pub broadcast proof fn lemma_handed_over_is_distinct(rows: Seq<(u64, SessionStream)>, id: u64)
    requires
        distinct(rows),
    ensures
        distinct(#[trigger] handed_over(rows, id)),
{
}

pub broadcast proof fn lemma_told_is_tidy(state: CoreState, event: Told)
    ensures
        state.tidy_to(#[trigger] state.told(event)),
{
}

pub broadcast proof fn lemma_stream_closed_is_tidy(state: CoreState, stream_id: u64)
    ensures
        state.tidy_to(#[trigger] state.stream_closed(stream_id)),
{
    broadcast use lemma_told_is_tidy;

}

pub broadcast proof fn lemma_with_stream_is_tidy(
    state: CoreState,
    stream_id: u64,
    stream: RequestStream,
)
    ensures
        state.tidy_to(#[trigger] state.with_stream(stream_id, stream)),
{
    broadcast use {
        lemma_told_is_tidy,
        lemma_stream_closed_is_tidy,
        lemma_put_is_distinct,
        lemma_other_streams_are_distinct,
        lemma_handed_over_is_distinct,
    };

    reveal(CoreState::with_stream);
}

pub broadcast proof fn lemma_performed_is_tidy(state: CoreState, action: StreamAction)
    ensures
        state.tidy_to(#[trigger] state.performed(action)),
{
    broadcast use {
        lemma_with_stream_is_tidy,
        lemma_put_is_distinct,
        lemma_other_streams_are_distinct,
        lemma_handed_over_is_distinct,
    };

    reveal(CoreState::performed);
}

pub broadcast proof fn lemma_performed_all_is_tidy(state: CoreState, actions: Seq<StreamAction>)
    ensures
        state.tidy_to(#[trigger] state.performed_all(actions)),
    decreases actions.len(),
{
    broadcast use lemma_performed_is_tidy;

    if actions.len() > 0 {
        lemma_performed_all_is_tidy(state, actions.drop_last());
    }
}

pub broadcast proof fn lemma_told_all_is_tidy(state: CoreState, events: Seq<SessionEvent>)
    ensures
        state.tidy_to(#[trigger] state.told_all(events)),
    decreases events.len(),
{
    broadcast use lemma_told_is_tidy;

    if events.len() > 0 {
        lemma_told_all_is_tidy(state, events.drop_last());
    }
}

pub broadcast proof fn lemma_flushed_is_tidy(state: CoreState)
    ensures
        state.tidy_to(#[trigger] state.flushed()),
{
    broadcast use {
        lemma_performed_all_is_tidy,
        lemma_told_all_is_tidy,
        lemma_put_is_distinct,
        lemma_other_streams_are_distinct,
        lemma_handed_over_is_distinct,
    };

    reveal(CoreState::flushed);
}

pub broadcast proof fn lemma_session_taken_up_is_tidy(state: CoreState, stream_id: u64, fin: bool)
    ensures
        state.tidy_to(#[trigger] state.session_taken_up(stream_id, fin)),
{
    broadcast use {
        lemma_told_is_tidy,
        lemma_flushed_is_tidy,
        lemma_put_is_distinct,
        lemma_other_streams_are_distinct,
        lemma_handed_over_is_distinct,
    };

    reveal(CoreState::session_taken_up);
}

pub broadcast proof fn lemma_session_refused_is_tidy(state: CoreState, stream_id: u64)
    ensures
        state.tidy_to(#[trigger] state.session_refused(stream_id)),
{
}

pub broadcast proof fn lemma_session_asked_is_tidy(state: CoreState, stream_id: u64, fin: bool)
    ensures
        state.tidy_to(#[trigger] state.session_asked(stream_id, fin)),
{
    broadcast use {
        lemma_flushed_is_tidy,
        lemma_session_taken_up_is_tidy,
        lemma_session_refused_is_tidy,
        lemma_put_is_distinct,
        lemma_other_streams_are_distinct,
        lemma_handed_over_is_distinct,
    };

    reveal(CoreState::session_asked);
}

pub broadcast proof fn lemma_request_arrived_is_tidy(
    state: CoreState,
    stream_id: u64,
    list: Seq<(Seq<u8>, Seq<u8>)>,
    fin: bool,
)
    ensures
        state.tidy_to(#[trigger] state.request_arrived(stream_id, list, fin)),
{
    broadcast use {
        lemma_told_is_tidy,
        lemma_put_is_distinct,
        lemma_other_streams_are_distinct,
        lemma_handed_over_is_distinct,
    };

    reveal(CoreState::request_arrived);
}

pub broadcast proof fn lemma_session_answered_is_tidy(
    state: CoreState,
    stream_id: u64,
    status: u16,
    fin: bool,
)
    ensures
        state.tidy_to(#[trigger] state.session_answered(stream_id, status, fin)),
{
    broadcast use {
        lemma_told_is_tidy,
        lemma_flushed_is_tidy,
        lemma_put_is_distinct,
        lemma_other_streams_are_distinct,
        lemma_handed_over_is_distinct,
    };

    reveal(CoreState::session_answered);
}

pub broadcast proof fn lemma_response_arrived_is_tidy(
    state: CoreState,
    stream_id: u64,
    list: Seq<(Seq<u8>, Seq<u8>)>,
    fin: bool,
)
    ensures
        state.tidy_to(#[trigger] state.response_arrived(stream_id, list, fin)),
{
    broadcast use {
        lemma_told_is_tidy,
        lemma_with_stream_is_tidy,
        lemma_session_answered_is_tidy,
        lemma_fin_arrived_is_tidy,
        lemma_put_is_distinct,
        lemma_other_streams_are_distinct,
        lemma_handed_over_is_distinct,
    };

    reveal(CoreState::response_arrived);
}

pub broadcast proof fn lemma_headers_arrived_is_tidy(
    state: CoreState,
    stream_id: u64,
    list: Seq<(Seq<u8>, Seq<u8>)>,
    fin: bool,
)
    ensures
        state.tidy_to(#[trigger] state.headers_arrived(stream_id, list, fin)),
{
    broadcast use {
        lemma_session_asked_is_tidy,
        lemma_request_arrived_is_tidy,
        lemma_response_arrived_is_tidy,
        lemma_put_is_distinct,
        lemma_other_streams_are_distinct,
        lemma_handed_over_is_distinct,
    };

    reveal(CoreState::headers_arrived);
}

pub broadcast proof fn lemma_capsules_arrived_is_tidy(state: CoreState, bytes: Seq<u8>)
    ensures
        state.tidy_to(#[trigger] state.capsules_arrived(bytes)),
{
    broadcast use {
        lemma_flushed_is_tidy,
        lemma_put_is_distinct,
        lemma_other_streams_are_distinct,
        lemma_handed_over_is_distinct,
    };

    reveal(CoreState::capsules_arrived);
}

pub broadcast proof fn lemma_data_arrived_is_tidy(state: CoreState, stream_id: u64, data: Vec<u8>)
    ensures
        state.tidy_to(#[trigger] state.data_arrived(stream_id, data)),
{
    broadcast use {
        lemma_told_is_tidy,
        lemma_with_stream_is_tidy,
        lemma_capsules_arrived_is_tidy,
        lemma_put_is_distinct,
        lemma_other_streams_are_distinct,
        lemma_handed_over_is_distinct,
    };

    reveal(CoreState::data_arrived);
}

pub broadcast proof fn lemma_fin_arrived_is_tidy(state: CoreState, stream_id: u64)
    ensures
        state.tidy_to(#[trigger] state.fin_arrived(stream_id)),
{
    broadcast use {
        lemma_told_is_tidy,
        lemma_with_stream_is_tidy,
        lemma_flushed_is_tidy,
        lemma_put_is_distinct,
        lemma_other_streams_are_distinct,
        lemma_handed_over_is_distinct,
    };

    reveal(CoreState::fin_arrived);
}

pub broadcast proof fn lemma_reset_arrived_is_tidy(
    state: CoreState,
    stream_id: u64,
    error_code: u64,
)
    ensures
        state.tidy_to(#[trigger] state.reset_arrived(stream_id, error_code)),
{
    broadcast use {
        lemma_told_is_tidy,
        lemma_with_stream_is_tidy,
        lemma_flushed_is_tidy,
        lemma_put_is_distinct,
        lemma_other_streams_are_distinct,
        lemma_handed_over_is_distinct,
    };

    reveal(CoreState::reset_arrived);
}

pub broadcast proof fn lemma_stop_arrived_is_tidy(state: CoreState, stream_id: u64, error_code: u64)
    ensures
        state.tidy_to(#[trigger] state.stop_arrived(stream_id, error_code)),
{
    broadcast use {
        lemma_put_is_distinct,
        lemma_other_streams_are_distinct,
        lemma_handed_over_is_distinct,
    };

    reveal(CoreState::stop_arrived);
}

pub broadcast proof fn lemma_raw_arrived_is_tidy(
    state: CoreState,
    stream_id: u64,
    data: Seq<u8>,
    fin: bool,
)
    ensures
        state.tidy_to(#[trigger] state.raw_arrived(stream_id, data, fin)),
{
    broadcast use {
        lemma_flushed_is_tidy,
        lemma_put_is_distinct,
        lemma_other_streams_are_distinct,
        lemma_handed_over_is_distinct,
    };

    reveal(CoreState::raw_arrived);
}

pub broadcast proof fn lemma_datagram_arrived_is_tidy(state: CoreState, bytes: Seq<u8>)
    ensures
        state.tidy_to(#[trigger] state.datagram_arrived(bytes)),
{
    broadcast use {
        lemma_told_is_tidy,
        lemma_put_is_distinct,
        lemma_other_streams_are_distinct,
        lemma_handed_over_is_distinct,
    };

    reveal(CoreState::datagram_arrived);
}

pub broadcast proof fn lemma_handled_is_tidy(state: CoreState, event: TransportEvent)
    ensures
        state.tidy_to(#[trigger] state.handled(event)),
{
    broadcast use {
        lemma_told_is_tidy,
        lemma_headers_arrived_is_tidy,
        lemma_data_arrived_is_tidy,
        lemma_fin_arrived_is_tidy,
        lemma_reset_arrived_is_tidy,
        lemma_stop_arrived_is_tidy,
        lemma_raw_arrived_is_tidy,
        lemma_datagram_arrived_is_tidy,
        lemma_put_is_distinct,
        lemma_other_streams_are_distinct,
        lemma_handed_over_is_distinct,
    };

    reveal(CoreState::handled);
}

pub broadcast proof fn lemma_settings_told_is_tidy(state: CoreState)
    ensures
        state.tidy_to(#[trigger] state.settings_told()),
{
    broadcast use {
        lemma_told_is_tidy,
        lemma_flushed_is_tidy,
        lemma_session_taken_up_is_tidy,
        lemma_session_refused_is_tidy,
        lemma_put_is_distinct,
        lemma_other_streams_are_distinct,
        lemma_handed_over_is_distinct,
    };

    reveal(CoreState::settings_told);
}

pub broadcast proof fn lemma_session_send_over_is_tidy(state: CoreState)
    ensures
        state.tidy_to(#[trigger] state.session_send_over()),
{
    broadcast use lemma_flushed_is_tidy;

}

pub broadcast proof fn lemma_abandonment_handled_is_tidy(state: CoreState, stream_id: u64)
    ensures
        state.tidy_to(#[trigger] state.abandonment_handled(stream_id)),
{
    broadcast use {
        lemma_with_stream_is_tidy,
        lemma_flushed_is_tidy,
        lemma_session_send_over_is_tidy,
        lemma_put_is_distinct,
        lemma_other_streams_are_distinct,
        lemma_handed_over_is_distinct,
    };

    reveal(CoreState::abandonment_handled);
}

pub broadcast proof fn lemma_end_offered_is_tidy(state: CoreState, stream_id: u64)
    ensures
        state.tidy_to(#[trigger] state.end_offered(stream_id)),
{
    broadcast use {
        lemma_with_stream_is_tidy,
        lemma_put_is_distinct,
        lemma_other_streams_are_distinct,
        lemma_handed_over_is_distinct,
    };

    reveal(CoreState::end_offered);
}

pub broadcast proof fn lemma_stop_found_is_tidy(state: CoreState, stream_id: u64, error_code: u64)
    ensures
        state.tidy_to(#[trigger] state.stop_found(stream_id, error_code)),
{
    broadcast use {
        lemma_with_stream_is_tidy,
        lemma_flushed_is_tidy,
        lemma_put_is_distinct,
        lemma_other_streams_are_distinct,
        lemma_handed_over_is_distinct,
    };

    reveal(CoreState::stop_found);
}

pub broadcast proof fn lemma_frame_written_is_tidy(state: CoreState, stream_id: u64)
    ensures
        state.tidy_to(#[trigger] state.frame_written(stream_id)),
{
    broadcast use {
        lemma_with_stream_is_tidy,
        lemma_put_is_distinct,
        lemma_other_streams_are_distinct,
        lemma_handed_over_is_distinct,
    };

    reveal(CoreState::frame_written);
}

pub broadcast proof fn lemma_session_wrote_is_tidy(state: CoreState, step: WriteStep)
    ensures
        state.tidy_to(#[trigger] state.session_wrote(step)),
{
    broadcast use {
        lemma_flushed_is_tidy,
        lemma_session_send_over_is_tidy,
        lemma_put_is_distinct,
        lemma_other_streams_are_distinct,
        lemma_handed_over_is_distinct,
    };

    reveal(CoreState::session_wrote);
}

pub broadcast proof fn lemma_frame_handled_is_tidy(state: CoreState, stream_id: u64)
    ensures
        state.tidy_to(#[trigger] state.frame_handled(stream_id)),
{
    broadcast use {
        lemma_stop_found_is_tidy,
        lemma_frame_written_is_tidy,
        lemma_session_wrote_is_tidy,
        lemma_put_is_distinct,
        lemma_other_streams_are_distinct,
        lemma_handed_over_is_distinct,
    };

    reveal(CoreState::frame_handled);
}

pub broadcast proof fn lemma_streams_written_is_tidy(state: CoreState, ids: Seq<u64>)
    ensures
        state.tidy_to(#[trigger] state.streams_written(ids)),
    decreases ids.len(),
{
    broadcast use {
        lemma_abandonment_handled_is_tidy,
        lemma_end_offered_is_tidy,
        lemma_frame_handled_is_tidy,
    };

    if ids.len() > 0 {
        lemma_streams_written_is_tidy(state, ids.drop_last());
    }
}

pub broadcast proof fn lemma_close_ended_is_tidy(state: CoreState, stream_id: u64)
    ensures
        state.tidy_to(#[trigger] state.close_ended(stream_id)),
{
    broadcast use {
        lemma_with_stream_is_tidy,
        lemma_flushed_is_tidy,
        lemma_put_is_distinct,
        lemma_other_streams_are_distinct,
        lemma_handed_over_is_distinct,
    };

    reveal(CoreState::close_ended);
}

pub broadcast proof fn lemma_close_sent_is_tidy(
    state: CoreState,
    stream_id: u64,
    rest: Seq<u8>,
    count: int,
)
    ensures
        state.tidy_to(#[trigger] state.close_sent(stream_id, rest, count)),
{
    broadcast use {
        lemma_close_ended_is_tidy,
        lemma_put_is_distinct,
        lemma_other_streams_are_distinct,
        lemma_handed_over_is_distinct,
    };

    reveal(CoreState::close_sent);
}

pub broadcast proof fn lemma_close_pumped_is_tidy(state: CoreState)
    ensures
        state.tidy_to(#[trigger] state.close_pumped()),
{
    broadcast use {
        lemma_stop_found_is_tidy,
        lemma_close_sent_is_tidy,
        lemma_put_is_distinct,
        lemma_other_streams_are_distinct,
        lemma_handed_over_is_distinct,
    };

    reveal(CoreState::close_pumped);
}

pub broadcast proof fn lemma_read_shut_is_tidy(state: CoreState, stream_id: u64, error_code: u64)
    ensures
        state.tidy_to(#[trigger] state.read_shut(stream_id, error_code)),
{
    broadcast use {
        lemma_performed_is_tidy,
        lemma_put_is_distinct,
        lemma_other_streams_are_distinct,
        lemma_handed_over_is_distinct,
    };

    reveal(CoreState::read_shut);
}

pub broadcast proof fn lemma_write_shut_is_tidy(state: CoreState, stream_id: u64, error_code: u64)
    ensures
        state.tidy_to(#[trigger] state.write_shut(stream_id, error_code)),
{
    broadcast use {
        lemma_performed_is_tidy,
        lemma_flushed_is_tidy,
        lemma_session_send_over_is_tidy,
        lemma_put_is_distinct,
        lemma_other_streams_are_distinct,
        lemma_handed_over_is_distinct,
    };

    reveal(CoreState::write_shut);
}

pub broadcast proof fn lemma_stream_shut_is_tidy(
    state: CoreState,
    stream_id: u64,
    shutdown: StreamShutdown,
)
    ensures
        state.tidy_to(#[trigger] state.stream_shut(stream_id, shutdown)),
{
    broadcast use {lemma_read_shut_is_tidy, lemma_write_shut_is_tidy};

}

pub broadcast proof fn lemma_flow_sent_is_tidy(state: CoreState, flow_id: u64, payload: Seq<u8>)
    ensures
        state.tidy_to(#[trigger] state.flow_sent(flow_id, payload)),
{
    broadcast use {
        lemma_put_is_distinct,
        lemma_other_streams_are_distinct,
        lemma_handed_over_is_distinct,
    };

    reveal(CoreState::flow_sent);
}

pub broadcast proof fn lemma_flow_frames_handled_is_tidy(
    state: CoreState,
    frames: Seq<FlowFrame>,
    from: int,
)
    ensures
        state.tidy_to(#[trigger] state.flow_frames_handled(frames, from)),
    decreases frames.len() - from,
{
    broadcast use {
        lemma_read_shut_is_tidy,
        lemma_write_shut_is_tidy,
        lemma_stream_shut_is_tidy,
        lemma_flow_sent_is_tidy,
    };

    if 0 <= from < frames.len() {
        lemma_flow_frames_handled_is_tidy(state.flow_frame_handled(frames[from]), frames, from + 1);
    }
}

pub broadcast proof fn lemma_flows_pumped_is_tidy(state: CoreState)
    ensures
        state.tidy_to(#[trigger] state.flows_pumped()),
{
    broadcast use {
        lemma_flow_frames_handled_is_tidy,
        lemma_put_is_distinct,
        lemma_other_streams_are_distinct,
        lemma_handed_over_is_distinct,
    };

    reveal(CoreState::flows_pumped);
}

pub broadcast proof fn lemma_session_requested_is_tidy(state: CoreState, request_id: u64)
    ensures
        state.tidy_to(#[trigger] state.session_requested(request_id)),
{
    broadcast use {
        lemma_told_is_tidy,
        lemma_flushed_is_tidy,
        lemma_put_is_distinct,
        lemma_other_streams_are_distinct,
        lemma_handed_over_is_distinct,
    };

    reveal(CoreState::session_requested);
}

pub broadcast proof fn lemma_request_left_is_tidy(state: CoreState, request_id: u64, fin: bool)
    ensures
        state.tidy_to(#[trigger] state.request_left(request_id, fin)),
{
    broadcast use {
        lemma_told_is_tidy,
        lemma_put_is_distinct,
        lemma_other_streams_are_distinct,
        lemma_handed_over_is_distinct,
    };

    reveal(CoreState::request_left);
}

pub broadcast proof fn lemma_requested_is_tidy(
    state: CoreState,
    request_id: u64,
    list: Seq<(Seq<u8>, Seq<u8>)>,
    fin: bool,
)
    ensures
        state.tidy_to(#[trigger] state.requested(request_id, list, fin)),
{
    broadcast use {
        lemma_told_is_tidy,
        lemma_session_requested_is_tidy,
        lemma_request_left_is_tidy,
        lemma_put_is_distinct,
        lemma_other_streams_are_distinct,
        lemma_handed_over_is_distinct,
    };

    reveal(CoreState::requested);
}

pub broadcast proof fn lemma_close_requested_is_tidy(
    state: CoreState,
    session_id: u64,
    error_code: u32,
    message: Seq<char>,
)
    ensures
        state.tidy_to(#[trigger] state.close_requested(session_id, error_code, message)),
{
    broadcast use {
        lemma_close_pumped_is_tidy,
        lemma_put_is_distinct,
        lemma_other_streams_are_distinct,
        lemma_handed_over_is_distinct,
    };

    reveal(CoreState::close_requested);
}

pub broadcast proof fn lemma_commanded_is_tidy(state: CoreState, command: H3Command)
    ensures
        state.tidy_to(#[trigger] state.commanded(command)),
{
    broadcast use {
        lemma_read_shut_is_tidy,
        lemma_write_shut_is_tidy,
        lemma_stream_shut_is_tidy,
        lemma_requested_is_tidy,
        lemma_close_requested_is_tidy,
        lemma_put_is_distinct,
        lemma_other_streams_are_distinct,
        lemma_handed_over_is_distinct,
    };

    reveal(CoreState::commanded);
}

pub broadcast proof fn lemma_commanded_from_is_tidy(
    state: CoreState,
    commands: Seq<H3Command>,
    from: int,
)
    ensures
        state.tidy_to(#[trigger] state.commanded_from(commands, from)),
    decreases commands.len() - from,
{
    broadcast use lemma_commanded_is_tidy;

    if 0 <= from < commands.len() {
        lemma_commanded_from_is_tidy(state.commanded(commands[from]), commands, from + 1);
    }
}

pub broadcast proof fn lemma_queued_request_sent_is_tidy(state: CoreState)
    ensures
        state.tidy_to(#[trigger] state.queued_request_sent()),
{
    broadcast use {
        lemma_session_requested_is_tidy,
        lemma_put_is_distinct,
        lemma_other_streams_are_distinct,
        lemma_handed_over_is_distinct,
    };

    reveal(CoreState::queued_request_sent);
}

pub broadcast proof fn lemma_retried_from_is_tidy(
    state: CoreState,
    requests: Seq<WaitingRequest>,
    from: int,
)
    ensures
        state.tidy_to(#[trigger] state.retried_from(requests, from)),
    decreases requests.len() - from,
{
    broadcast use lemma_request_left_is_tidy;

    if 0 <= from < requests.len() {
        let next = state.request_left(requests[from].request_id, requests[from].fin);
        lemma_retried_from_is_tidy(next, requests, from + 1);
    }
}

pub broadcast proof fn lemma_requests_retried_is_tidy(state: CoreState)
    ensures
        state.tidy_to(#[trigger] state.requests_retried()),
{
    broadcast use {
        lemma_retried_from_is_tidy,
        lemma_put_is_distinct,
        lemma_other_streams_are_distinct,
        lemma_handed_over_is_distinct,
    };

    reveal(CoreState::requests_retried);
}

/// Reading leaves the table in order.
pub proof fn lemma_reading_is_tidy(state: CoreState)
    ensures
        state.tidy_to(state.read()),
{
    broadcast use lemma_settings_told_is_tidy;

    let told = state.settings_told();
    let start = CoreState {
        transport: TransportState { inbox: Seq::empty(), ..told.transport },
        ..told
    };
    lemma_reads_from_is_tidy(start, told.transport.inbox, 0, Seq::empty());
}

proof fn lemma_reads_from_is_tidy(
    state: CoreState,
    inbox: Seq<TransportEvent>,
    from: int,
    kept: Seq<TransportEvent>,
)
    ensures
        state.tidy_to(state.reads_from(inbox, from, kept).0),
    decreases inbox.len() - from,
{
    broadcast use lemma_handled_is_tidy;

    reveal(CoreState::reads_from);
    if 0 <= from < inbox.len() {
        lemma_reads_from_is_tidy(state, inbox, from + 1, kept.push(inbox[from]));
        lemma_reads_from_is_tidy(state.handled(inbox[from]), inbox, from + 1, kept);
    }
}

/// So do commands.
pub proof fn lemma_commanding_is_tidy(state: CoreState, commands: Seq<H3Command>)
    ensures
        state.tidy_to(state.caught_up().commanded_from(commands, 0)),
{
    broadcast use {
        lemma_queued_request_sent_is_tidy,
        lemma_requests_retried_is_tidy,
        lemma_commanded_from_is_tidy,
    };

}

/// So does writing.
pub proof fn lemma_writing_is_tidy(state: CoreState)
    ensures
        state.tidy_to(state.written()),
{
    broadcast use {
        lemma_flows_pumped_is_tidy,
        lemma_streams_written_is_tidy,
        lemma_close_pumped_is_tidy,
    };

}

} // verus!
