//! Streams are opened one after the other: whatever the driver does, how many it has
//! opened never goes down, and never over the peer's limit.

use vstd::prelude::*;

use crate::driver::commands::H3Command;
use crate::driver::events::Told;
use crate::driver::flows::StreamShutdown;
use crate::driver::state::{CoreState, FlowFrame, WaitingRequest};
use crate::request_stream::{RequestStream, WriteStep};
use crate::transport::{TransportEvent, TransportState, MAX_STREAM_INDEX};
use crate::wt::types::{SessionEvent, StreamAction};

verus! {

impl TransportState {
    /// Whether the streams that were opened have numbers.
    pub open spec fn within_range(self) -> bool {
        self.bidi_opened <= MAX_STREAM_INDEX && self.uni_opened <= MAX_STREAM_INDEX
    }

    /// Whether `later` can follow in the course of a turn: the peer's limits stay, and
    /// streams are opened within them and never taken back.
    pub open spec fn grows_to(self, later: TransportState) -> bool {
        &&& later.role == self.role
        &&& later.bidi_limit == self.bidi_limit
        &&& later.uni_limit == self.uni_limit
        &&& self.bidi_opened <= later.bidi_opened
        &&& self.uni_opened <= later.uni_opened
        &&& later.bidi_opened == self.bidi_opened || later.bidi_opened <= self.bidi_limit
        &&& later.uni_opened == self.uni_opened || later.uni_opened <= self.uni_limit
        &&& self.within_range() ==> later.within_range()
    }
}

pub broadcast proof fn lemma_raw_sent_grows(
    state: TransportState,
    stream_id: u64,
    data: Seq<u8>,
    fin: bool,
)
    ensures
        state.grows_to(#[trigger] state.raw_sent(stream_id, data, fin)),
{
    reveal(TransportState::raw_sent);
}

pub broadcast proof fn lemma_told_grows(state: CoreState, event: Told)
    ensures
        state.transport.grows_to((#[trigger] state.told(event)).transport),
{
}

pub broadcast proof fn lemma_stream_closed_grows(state: CoreState, stream_id: u64)
    ensures
        state.transport.grows_to((#[trigger] state.stream_closed(stream_id)).transport),
{
    broadcast use lemma_told_grows;

}

pub broadcast proof fn lemma_with_stream_grows(
    state: CoreState,
    stream_id: u64,
    stream: RequestStream,
)
    ensures
        state.transport.grows_to((#[trigger] state.with_stream(stream_id, stream)).transport),
{
    broadcast use {lemma_told_grows, lemma_stream_closed_grows};

    reveal(CoreState::with_stream);
}

pub broadcast proof fn lemma_performed_grows(state: CoreState, action: StreamAction)
    ensures
        state.transport.grows_to((#[trigger] state.performed(action)).transport),
{
    broadcast use lemma_with_stream_grows;

    reveal(CoreState::performed);
}

pub broadcast proof fn lemma_performed_all_grows(state: CoreState, actions: Seq<StreamAction>)
    ensures
        state.transport.grows_to((#[trigger] state.performed_all(actions)).transport),
    decreases actions.len(),
{
    broadcast use lemma_performed_grows;

    if actions.len() > 0 {
        lemma_performed_all_grows(state, actions.drop_last());
    }
}

pub broadcast proof fn lemma_told_all_grows(state: CoreState, events: Seq<SessionEvent>)
    ensures
        state.transport.grows_to((#[trigger] state.told_all(events)).transport),
    decreases events.len(),
{
    broadcast use lemma_told_grows;

    if events.len() > 0 {
        lemma_told_all_grows(state, events.drop_last());
    }
}

pub broadcast proof fn lemma_flushed_grows(state: CoreState)
    ensures
        state.transport.grows_to((#[trigger] state.flushed()).transport),
{
    broadcast use {lemma_performed_all_grows, lemma_told_all_grows};

    reveal(CoreState::flushed);
}

pub broadcast proof fn lemma_session_taken_up_grows(state: CoreState, stream_id: u64, fin: bool)
    ensures
        state.transport.grows_to((#[trigger] state.session_taken_up(stream_id, fin)).transport),
{
    broadcast use {lemma_told_grows, lemma_flushed_grows};

    reveal(CoreState::session_taken_up);
}

pub broadcast proof fn lemma_session_refused_grows(state: CoreState, stream_id: u64)
    ensures
        state.transport.grows_to((#[trigger] state.session_refused(stream_id)).transport),
{
}

pub broadcast proof fn lemma_session_asked_grows(state: CoreState, stream_id: u64, fin: bool)
    ensures
        state.transport.grows_to((#[trigger] state.session_asked(stream_id, fin)).transport),
{
    broadcast use {lemma_flushed_grows, lemma_session_taken_up_grows, lemma_session_refused_grows};

    reveal(CoreState::session_asked);
}

pub broadcast proof fn lemma_request_arrived_grows(
    state: CoreState,
    stream_id: u64,
    list: Seq<(Seq<u8>, Seq<u8>)>,
    fin: bool,
)
    ensures
        state.transport.grows_to(
            (#[trigger] state.request_arrived(stream_id, list, fin)).transport,
        ),
{
    broadcast use lemma_told_grows;

    reveal(CoreState::request_arrived);
}

pub broadcast proof fn lemma_session_answered_grows(
    state: CoreState,
    stream_id: u64,
    status: u16,
    fin: bool,
)
    ensures
        state.transport.grows_to(
            (#[trigger] state.session_answered(stream_id, status, fin)).transport,
        ),
{
    broadcast use {lemma_told_grows, lemma_flushed_grows};

    reveal(CoreState::session_answered);
}

pub broadcast proof fn lemma_response_arrived_grows(
    state: CoreState,
    stream_id: u64,
    list: Seq<(Seq<u8>, Seq<u8>)>,
    fin: bool,
)
    ensures
        state.transport.grows_to(
            (#[trigger] state.response_arrived(stream_id, list, fin)).transport,
        ),
{
    broadcast use {
        lemma_told_grows,
        lemma_with_stream_grows,
        lemma_session_answered_grows,
        lemma_fin_arrived_grows,
    };

    reveal(CoreState::response_arrived);
}

pub broadcast proof fn lemma_headers_arrived_grows(
    state: CoreState,
    stream_id: u64,
    list: Seq<(Seq<u8>, Seq<u8>)>,
    fin: bool,
)
    ensures
        state.transport.grows_to(
            (#[trigger] state.headers_arrived(stream_id, list, fin)).transport,
        ),
{
    broadcast use {
        lemma_session_asked_grows,
        lemma_request_arrived_grows,
        lemma_response_arrived_grows,
    };

    reveal(CoreState::headers_arrived);
}

pub broadcast proof fn lemma_capsules_arrived_grows(state: CoreState, bytes: Seq<u8>)
    ensures
        state.transport.grows_to((#[trigger] state.capsules_arrived(bytes)).transport),
{
    broadcast use lemma_flushed_grows;

    reveal(CoreState::capsules_arrived);
}

pub broadcast proof fn lemma_data_arrived_grows(state: CoreState, stream_id: u64, data: Vec<u8>)
    ensures
        state.transport.grows_to((#[trigger] state.data_arrived(stream_id, data)).transport),
{
    broadcast use {lemma_told_grows, lemma_with_stream_grows, lemma_capsules_arrived_grows};

    reveal(CoreState::data_arrived);
}

pub broadcast proof fn lemma_fin_arrived_grows(state: CoreState, stream_id: u64)
    ensures
        state.transport.grows_to((#[trigger] state.fin_arrived(stream_id)).transport),
{
    broadcast use {lemma_told_grows, lemma_with_stream_grows, lemma_flushed_grows};

    reveal(CoreState::fin_arrived);
}

pub broadcast proof fn lemma_reset_arrived_grows(state: CoreState, stream_id: u64, error_code: u64)
    ensures
        state.transport.grows_to((#[trigger] state.reset_arrived(stream_id, error_code)).transport),
{
    broadcast use {lemma_told_grows, lemma_with_stream_grows, lemma_flushed_grows};

    reveal(CoreState::reset_arrived);
}

pub broadcast proof fn lemma_stop_arrived_grows(state: CoreState, stream_id: u64, error_code: u64)
    ensures
        state.transport.grows_to((#[trigger] state.stop_arrived(stream_id, error_code)).transport),
{
    reveal(CoreState::stop_arrived);
}

pub broadcast proof fn lemma_raw_arrived_grows(
    state: CoreState,
    stream_id: u64,
    data: Seq<u8>,
    fin: bool,
)
    ensures
        state.transport.grows_to((#[trigger] state.raw_arrived(stream_id, data, fin)).transport),
{
    broadcast use lemma_flushed_grows;

    reveal(CoreState::raw_arrived);
}

pub broadcast proof fn lemma_datagram_arrived_grows(state: CoreState, bytes: Seq<u8>)
    ensures
        state.transport.grows_to((#[trigger] state.datagram_arrived(bytes)).transport),
{
    broadcast use lemma_told_grows;

    reveal(CoreState::datagram_arrived);
}

pub broadcast proof fn lemma_handled_grows(state: CoreState, event: TransportEvent)
    ensures
        state.transport.grows_to((#[trigger] state.handled(event)).transport),
{
    broadcast use {
        lemma_told_grows,
        lemma_headers_arrived_grows,
        lemma_data_arrived_grows,
        lemma_fin_arrived_grows,
        lemma_reset_arrived_grows,
        lemma_stop_arrived_grows,
        lemma_raw_arrived_grows,
        lemma_datagram_arrived_grows,
    };

    reveal(CoreState::handled);
}

pub broadcast proof fn lemma_settings_told_grows(state: CoreState)
    ensures
        state.transport.grows_to((#[trigger] state.settings_told()).transport),
{
    broadcast use {
        lemma_told_grows,
        lemma_flushed_grows,
        lemma_session_taken_up_grows,
        lemma_session_refused_grows,
    };

    reveal(CoreState::settings_told);
}

pub broadcast proof fn lemma_session_send_over_grows(state: CoreState)
    ensures
        state.transport.grows_to((#[trigger] state.session_send_over()).transport),
{
    broadcast use lemma_flushed_grows;

}

pub broadcast proof fn lemma_abandonment_handled_grows(state: CoreState, stream_id: u64)
    ensures
        state.transport.grows_to((#[trigger] state.abandonment_handled(stream_id)).transport),
{
    broadcast use {lemma_with_stream_grows, lemma_flushed_grows, lemma_session_send_over_grows};

    reveal(CoreState::abandonment_handled);
}

pub broadcast proof fn lemma_end_offered_grows(state: CoreState, stream_id: u64)
    ensures
        state.transport.grows_to((#[trigger] state.end_offered(stream_id)).transport),
{
    broadcast use lemma_with_stream_grows;

    reveal(CoreState::end_offered);
}

pub broadcast proof fn lemma_stop_found_grows(state: CoreState, stream_id: u64, error_code: u64)
    ensures
        state.transport.grows_to((#[trigger] state.stop_found(stream_id, error_code)).transport),
{
    broadcast use {lemma_with_stream_grows, lemma_flushed_grows};

    reveal(CoreState::stop_found);
}

pub broadcast proof fn lemma_frame_written_grows(state: CoreState, stream_id: u64)
    ensures
        state.transport.grows_to((#[trigger] state.frame_written(stream_id)).transport),
{
    broadcast use lemma_with_stream_grows;

    reveal(CoreState::frame_written);
}

pub broadcast proof fn lemma_session_wrote_grows(state: CoreState, step: WriteStep)
    ensures
        state.transport.grows_to((#[trigger] state.session_wrote(step)).transport),
{
    broadcast use {lemma_flushed_grows, lemma_session_send_over_grows};

    reveal(CoreState::session_wrote);
}

pub broadcast proof fn lemma_frame_handled_grows(state: CoreState, stream_id: u64)
    ensures
        state.transport.grows_to((#[trigger] state.frame_handled(stream_id)).transport),
{
    broadcast use {lemma_stop_found_grows, lemma_frame_written_grows, lemma_session_wrote_grows};

    reveal(CoreState::frame_handled);
}

pub broadcast proof fn lemma_streams_written_grows(state: CoreState, ids: Seq<u64>)
    ensures
        state.transport.grows_to((#[trigger] state.streams_written(ids)).transport),
    decreases ids.len(),
{
    broadcast use {
        lemma_abandonment_handled_grows,
        lemma_end_offered_grows,
        lemma_frame_handled_grows,
    };

    if ids.len() > 0 {
        lemma_streams_written_grows(state, ids.drop_last());
    }
}

pub broadcast proof fn lemma_close_ended_grows(state: CoreState, stream_id: u64)
    ensures
        state.transport.grows_to((#[trigger] state.close_ended(stream_id)).transport),
{
    broadcast use {lemma_with_stream_grows, lemma_flushed_grows};

    reveal(CoreState::close_ended);
}

pub broadcast proof fn lemma_close_sent_grows(
    state: CoreState,
    stream_id: u64,
    rest: Seq<u8>,
    count: int,
)
    ensures
        state.transport.grows_to((#[trigger] state.close_sent(stream_id, rest, count)).transport),
{
    broadcast use lemma_close_ended_grows;

    reveal(CoreState::close_sent);
}

pub broadcast proof fn lemma_close_pumped_grows(state: CoreState)
    ensures
        state.transport.grows_to((#[trigger] state.close_pumped()).transport),
{
    broadcast use {lemma_stop_found_grows, lemma_close_sent_grows};

    reveal(CoreState::close_pumped);
}

pub broadcast proof fn lemma_read_shut_grows(state: CoreState, stream_id: u64, error_code: u64)
    ensures
        state.transport.grows_to((#[trigger] state.read_shut(stream_id, error_code)).transport),
{
    broadcast use lemma_performed_grows;

    reveal(CoreState::read_shut);
}

pub broadcast proof fn lemma_write_shut_grows(state: CoreState, stream_id: u64, error_code: u64)
    ensures
        state.transport.grows_to((#[trigger] state.write_shut(stream_id, error_code)).transport),
{
    broadcast use {lemma_performed_grows, lemma_flushed_grows, lemma_session_send_over_grows};

    reveal(CoreState::write_shut);
}

pub broadcast proof fn lemma_stream_shut_grows(
    state: CoreState,
    stream_id: u64,
    shutdown: StreamShutdown,
)
    ensures
        state.transport.grows_to((#[trigger] state.stream_shut(stream_id, shutdown)).transport),
{
    broadcast use {lemma_read_shut_grows, lemma_write_shut_grows};

}

pub broadcast proof fn lemma_flow_sent_grows(state: CoreState, flow_id: u64, payload: Seq<u8>)
    ensures
        state.transport.grows_to((#[trigger] state.flow_sent(flow_id, payload)).transport),
{
    reveal(CoreState::flow_sent);
}

pub broadcast proof fn lemma_flow_frames_handled_grows(
    state: CoreState,
    frames: Seq<FlowFrame>,
    from: int,
)
    ensures
        state.transport.grows_to((#[trigger] state.flow_frames_handled(frames, from)).transport),
    decreases frames.len() - from,
{
    broadcast use {
        lemma_read_shut_grows,
        lemma_write_shut_grows,
        lemma_stream_shut_grows,
        lemma_flow_sent_grows,
    };

    if 0 <= from < frames.len() {
        lemma_flow_frames_handled_grows(state.flow_frame_handled(frames[from]), frames, from + 1);
    }
}

pub broadcast proof fn lemma_flows_pumped_grows(state: CoreState)
    ensures
        state.transport.grows_to((#[trigger] state.flows_pumped()).transport),
{
    broadcast use lemma_flow_frames_handled_grows;

    reveal(CoreState::flows_pumped);
}

pub broadcast proof fn lemma_session_requested_grows(state: CoreState, request_id: u64)
    ensures
        state.transport.grows_to((#[trigger] state.session_requested(request_id)).transport),
{
    broadcast use {lemma_told_grows, lemma_flushed_grows};

    reveal(CoreState::session_requested);
}

pub broadcast proof fn lemma_request_left_grows(state: CoreState, request_id: u64, fin: bool)
    ensures
        state.transport.grows_to((#[trigger] state.request_left(request_id, fin)).transport),
{
    broadcast use lemma_told_grows;

    reveal(CoreState::request_left);
}

pub broadcast proof fn lemma_requested_grows(
    state: CoreState,
    request_id: u64,
    list: Seq<(Seq<u8>, Seq<u8>)>,
    fin: bool,
)
    ensures
        state.transport.grows_to((#[trigger] state.requested(request_id, list, fin)).transport),
{
    broadcast use {lemma_told_grows, lemma_session_requested_grows, lemma_request_left_grows};

    reveal(CoreState::requested);
}

pub broadcast proof fn lemma_close_requested_grows(
    state: CoreState,
    session_id: u64,
    error_code: u32,
    message: Seq<char>,
)
    ensures
        state.transport.grows_to(
            (#[trigger] state.close_requested(session_id, error_code, message)).transport,
        ),
{
    broadcast use lemma_close_pumped_grows;

    reveal(CoreState::close_requested);
}

pub broadcast proof fn lemma_commanded_grows(state: CoreState, command: H3Command)
    ensures
        state.transport.grows_to((#[trigger] state.commanded(command)).transport),
{
    broadcast use {
        lemma_read_shut_grows,
        lemma_write_shut_grows,
        lemma_stream_shut_grows,
        lemma_requested_grows,
        lemma_close_requested_grows,
    };

    reveal(CoreState::commanded);
}

pub broadcast proof fn lemma_commanded_from_grows(
    state: CoreState,
    commands: Seq<H3Command>,
    from: int,
)
    ensures
        state.transport.grows_to((#[trigger] state.commanded_from(commands, from)).transport),
    decreases commands.len() - from,
{
    broadcast use lemma_commanded_grows;

    if 0 <= from < commands.len() {
        lemma_commanded_from_grows(state.commanded(commands[from]), commands, from + 1);
    }
}

pub broadcast proof fn lemma_queued_request_sent_grows(state: CoreState)
    ensures
        state.transport.grows_to((#[trigger] state.queued_request_sent()).transport),
{
    broadcast use lemma_session_requested_grows;

    reveal(CoreState::queued_request_sent);
}

pub broadcast proof fn lemma_retried_from_grows(
    state: CoreState,
    requests: Seq<WaitingRequest>,
    from: int,
)
    ensures
        state.transport.grows_to((#[trigger] state.retried_from(requests, from)).transport),
    decreases requests.len() - from,
{
    broadcast use lemma_request_left_grows;

    if 0 <= from < requests.len() {
        let next = state.request_left(requests[from].request_id, requests[from].fin);
        lemma_retried_from_grows(next, requests, from + 1);
    }
}

pub broadcast proof fn lemma_requests_retried_grows(state: CoreState)
    ensures
        state.transport.grows_to((#[trigger] state.requests_retried()).transport),
{
    broadcast use lemma_retried_from_grows;

    reveal(CoreState::requests_retried);
}

/// Reading opens no stream.
pub proof fn lemma_reading_grows(state: CoreState)
    ensures
        state.transport.grows_to(state.read().transport),
{
    broadcast use lemma_settings_told_grows;

    let told = state.settings_told();
    let start = CoreState {
        transport: TransportState { inbox: Seq::empty(), ..told.transport },
        ..told
    };
    lemma_reads_from_grows(start, told.transport.inbox, 0, Seq::empty());
}

proof fn lemma_reads_from_grows(
    state: CoreState,
    inbox: Seq<TransportEvent>,
    from: int,
    kept: Seq<TransportEvent>,
)
    ensures
        state.transport.grows_to(state.reads_from(inbox, from, kept).0.transport),
    decreases inbox.len() - from,
{
    broadcast use lemma_handled_grows;

    reveal(CoreState::reads_from);
    if 0 <= from < inbox.len() {
        lemma_reads_from_grows(state, inbox, from + 1, kept.push(inbox[from]));
        lemma_reads_from_grows(state.handled(inbox[from]), inbox, from + 1, kept);
    }
}

/// Commands open streams only within the peer's limits.
pub proof fn lemma_commanding_grows(state: CoreState, commands: Seq<H3Command>)
    ensures
        state.transport.grows_to(state.caught_up().commanded_from(commands, 0).transport),
{
    broadcast use {
        lemma_queued_request_sent_grows,
        lemma_requests_retried_grows,
        lemma_commanded_from_grows,
    };

}

/// Writing opens no stream.
pub proof fn lemma_writing_grows(state: CoreState)
    ensures
        state.transport.grows_to(state.written().transport),
{
    broadcast use {
        lemma_flows_pumped_grows,
        lemma_streams_written_grows,
        lemma_close_pumped_grows,
    };

}

} // verus!
