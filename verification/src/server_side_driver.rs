//! Scenarios of a driver at the server's end of a connection.

use vstd::prelude::*;

use crate::client_side_driver::webtransport_offered;
use crate::conn_close::H3ConnectionError;
use crate::driver::commands::H3Driver;
use crate::driver::events::{DriverEvent, H3Event, Told};
use crate::driver::helper::{DriverTestHelper, HelperState};
use crate::headers::{
    fields, flow_request_fields, flow_request_headers, response_fields, response_headers,
    same_bytes, session_request_fields, session_request_headers, Header,
};
use crate::peer_log::PeerEvent;
use crate::pipe_config::{default_endpoint, default_quiche_config, DriverPipe, EndpointConfig};
use crate::request_stream::{FrameAdmission, OutboundFrame, RequestStream};
use crate::settings::{default_settings, Http3Settings};
use crate::table::lookup;
use crate::transport::{Role, TransportState, MAX_STREAM_INDEX};
use crate::wire::datagram::{decode_datagram, split_bytes};
use crate::wire::stream_prefix::WebTransportStreamDirection;
use crate::wt::types::{SessionEvent, WebTransportSessionCloseReason, WebTransportSessionEvent};

pub use crate::multicast::multicast_ack;
pub use crate::server_requests::{
    open_server_webtransport_bidi, open_server_webtransport_uni,
    release_server_webtransport_stream_credit, retire_receive_terminal, retire_send_terminal,
    wait_for_send_terminal, wait_for_session_terminal, webtransport_retention_stats,
};
pub use crate::wire::capsule::webtransport_close_capsule;
pub use crate::wire::datagram::dgram_buf;
pub use crate::wire::stream_prefix::webtransport_stream_data;
pub use crate::wire::varint::encode_varint;
pub use crate::wt::retention::assert_terminal_retention_current_zero;
pub use crate::wt::write_lease::{mock_write_lease, mock_write_lease_log};

verus! {

/// A request for a session.
pub fn make_webtransport_request_headers() -> (headers: Vec<Header>)
    ensures
        fields(headers@) == session_request_fields(),
{
    session_request_headers()
}

/// Settings that offer WebTransport.
pub fn webtransport_settings() -> (settings: Http3Settings)
    ensures
        settings == webtransport_offered(),
        settings.lanes_fit(),
{
    let mut settings = Http3Settings::default();
    settings.enable_webtransport = true;
    settings
}

/// Settings that offer datagram flows and name the multicast channel for them.
pub fn webtransport_multicast_settings(channel_id: Vec<u8>) -> (settings: Http3Settings)
    ensures
        settings == (Http3Settings {
            enable_extended_connect: true,
            multicast_datagram_channel_id: Some(channel_id),
            ..default_settings()
        }),
        settings.lanes_fit(),
{
    let mut settings = Http3Settings::default();
    settings.enable_extended_connect = true;
    settings.multicast_datagram_channel_id = Some(channel_id);
    settings
}

/// An end with what WebTransport needs.
pub open spec fn ready_endpoint() -> EndpointConfig {
    default_endpoint().webtransport_ready(10)
}

fn ready_config() -> (config: EndpointConfig)
    ensures
        config == ready_endpoint(),
{
    let mut config = default_quiche_config();
    config.enable_dgram(true, 10, 10);
    config.enable_reset_stream_at(true);
    config
}

/// Both ends with datagrams.
pub fn dgram_enabled_pipe() -> (pipe: DriverPipe)
    ensures
        pipe == (DriverPipe { client: ready_endpoint(), server: ready_endpoint() }),
{
    DriverPipe::with_config(ready_config())
}

/// Both ends with room for one datagram to send.
pub fn single_dgram_queue_webtransport_pipe() -> (pipe: DriverPipe)
    ensures
        pipe == (DriverPipe {
            client: default_endpoint().webtransport_ready(1),
            server: default_endpoint().webtransport_ready(1),
        }),
{
    let mut config = default_quiche_config();
    config.enable_dgram(true, 10, 1);
    config.enable_reset_stream_at(true);
    DriverPipe::with_config(config)
}

/// Both ends with little room for the answers to a request.
pub fn backpressured_webtransport_pipe() -> (pipe: DriverPipe)
    ensures
        ({
            let end = EndpointConfig {
                initial_max_stream_data_bidi_local: 64,
                ..ready_endpoint()
            };
            pipe == DriverPipe { client: end, server: end }
        }),
{
    let mut config = ready_config();
    config.set_initial_max_stream_data_bidi_local(64);
    DriverPipe::with_config(config)
}

fn narrow_client(bidi_remote: u64) -> (pipe: DriverPipe)
    ensures
        pipe == (DriverPipe {
            client: EndpointConfig {
                initial_max_stream_data_bidi_remote: bidi_remote,
                ..ready_endpoint()
            },
            server: ready_endpoint(),
        }),
{
    let mut client = ready_config();
    client.set_initial_max_stream_data_bidi_remote(bidi_remote);
    DriverPipe { client, server: ready_config() }
}

/// A client that takes less than a stream prefix on a stream of the server.
pub fn prefix_backpressured_webtransport_pipe() -> (pipe: DriverPipe)
    ensures
        pipe == (DriverPipe {
            client: EndpointConfig {
                initial_max_stream_data_bidi_remote: 2,
                ..ready_endpoint()
            },
            server: ready_endpoint(),
        }),
{
    narrow_client(2)
}

/// A client that takes a stream prefix and little more.
pub fn payload_backpressured_webtransport_pipe() -> (pipe: DriverPipe)
    ensures
        pipe == (DriverPipe {
            client: EndpointConfig {
                initial_max_stream_data_bidi_remote: 64,
                ..ready_endpoint()
            },
            server: ready_endpoint(),
        }),
{
    narrow_client(64)
}

/// A client that takes exactly a stream prefix.
pub fn exact_prefix_capacity_webtransport_pipe() -> (pipe: DriverPipe)
    ensures
        pipe == (DriverPipe {
            client: EndpointConfig {
                initial_max_stream_data_bidi_remote: 3,
                ..ready_endpoint()
            },
            server: ready_endpoint(),
        }),
{
    narrow_client(3)
}

/// A client that allows one bidirectional stream of the server.
pub fn single_server_bidi_webtransport_pipe() -> (pipe: DriverPipe)
    ensures
        pipe == (DriverPipe {
            client: EndpointConfig {
                initial_max_streams_bidi: 1,
                initial_max_stream_data_bidi_remote: 3,
                ..ready_endpoint()
            },
            server: ready_endpoint(),
        }),
{
    let mut pipe = narrow_client(3);
    pipe.client.set_initial_max_streams_bidi(1);
    pipe
}

/// A client that allows one stream of the server in each direction, besides
/// those of HTTP/3 itself.
pub fn single_server_stream_each_direction_webtransport_pipe() -> (pipe: DriverPipe)
    ensures
        pipe == (DriverPipe {
            client: EndpointConfig {
                initial_max_streams_bidi: 1,
                initial_max_streams_uni: 5,
                initial_max_stream_data_bidi_remote: 3,
                ..ready_endpoint()
            },
            server: ready_endpoint(),
        }),
{
    let mut pipe = single_server_bidi_webtransport_pipe();
    pipe.client.set_initial_max_streams_uni(5);
    pipe
}

/// A server and a peer with the same settings, before the handshake.
pub fn webtransport_helper(settings: Http3Settings) -> (helper: DriverTestHelper)
    requires
        settings.lanes_fit(),
    ensures
        helper.wf(),
        helper@ == (HelperState {
            driver: H3Driver::fresh(
                Role::Server,
                DriverPipe { client: ready_endpoint(), server: ready_endpoint() },
                settings,
            ),
            peer_offers_webtransport: settings.enable_webtransport,
            peer_requests: 0,
        }),
{
    DriverTestHelper::with_pipe_and_http3_settings(Role::Server, dgram_enabled_pipe(), settings)
}

/// The state after the peer took its oldest datagram.
pub open spec fn dgram_taken(state: HelperState) -> HelperState {
    let transport = state.driver.core.transport;
    if transport.dgrams_arrived.len() > 0 {
        state.with_core(
            state.driver.core.with_transport(
                TransportState {
                    dgrams_arrived: transport.dgrams_arrived.skip(1),
                    ..transport
                },
            ),
        )
    } else {
        state
    }
}

/// How many bytes the peer can take as one datagram.
pub const PEER_DGRAM_BUFFER: usize = 128;

/// Whether the peer's next datagram is the given one of the given flow, and no
/// longer than the peer can take.
pub open spec fn next_dgram_is(state: HelperState, flow_id: u64, payload: Seq<u8>) -> bool {
    let arrived = state.driver.core.transport.dgrams_arrived;
    &&& arrived.len() > 0
    &&& arrived[0].len() <= PEER_DGRAM_BUFFER
    &&& split_bytes(arrived[0]) == Some((flow_id, payload))
}

/// The peer takes its next datagram. Returns whether it is the expected one.
pub fn assert_next_client_raw_h3_dgram(
    helper: &mut DriverTestHelper,
    expected_flow_id: u64,
    expected_payload: &[u8],
) -> (met: bool)
    requires
        old(helper).wf(),
    ensures
        final(helper).wf(),
        final(helper)@ == dgram_taken(old(helper)@),
        met == next_dgram_is(old(helper)@, expected_flow_id, expected_payload@),
{
    match helper.peer_dgram_recv() {
        Some(data) => match decode_datagram(&data) {
            Some((flow_id, payload)) => data.len() <= PEER_DGRAM_BUFFER && flow_id
                == expected_flow_id && same_bytes(
                payload.as_slice(),
                expected_payload,
            ),
            None => false,
        },
        None => false,
    }
}

/// The peer takes its next datagram. Returns whether it is the expected one and
/// the only one; for the latter the peer looks for another one, if it got as far.
pub fn assert_client_raw_h3_dgram(
    helper: &mut DriverTestHelper,
    expected_flow_id: u64,
    expected_payload: &[u8],
) -> (met: bool)
    requires
        old(helper).wf(),
    ensures
        final(helper).wf(),
        final(helper)@ == (if next_dgram_is(old(helper)@, expected_flow_id, expected_payload@) {
            dgram_taken(dgram_taken(old(helper)@))
        } else {
            dgram_taken(old(helper)@)
        }),
        met == (next_dgram_is(old(helper)@, expected_flow_id, expected_payload@) && old(
            helper,
        )@.driver.core.transport.dgrams_arrived.len() == 1),
{
    if assert_next_client_raw_h3_dgram(helper, expected_flow_id, expected_payload) {
        assert_client_no_raw_h3_dgram(helper)
    } else {
        false
    }
}

/// The peer looks for a datagram. Returns whether there is none.
pub fn assert_client_no_raw_h3_dgram(helper: &mut DriverTestHelper) -> (met: bool)
    requires
        old(helper).wf(),
    ensures
        final(helper).wf(),
        final(helper)@ == dgram_taken(old(helper)@),
        met == (old(helper)@.driver.core.transport.dgrams_arrived.len() == 0),
{
    helper.peer_dgram_recv().is_none()
}

/// Takes the next event. Returns whether it is the given one of a session.
pub fn expect_session_event(
    helper: &mut DriverTestHelper,
    expected: &WebTransportSessionEvent,
) -> (met: bool)
    requires
        old(helper).wf(),
    ensures
        final(helper).wf(),
        final(helper)@ == old(helper)@.event_taken(),
        met == (old(helper)@.next_event() == Some(Told::Session(expected@))),
{
    match helper.recv_event() {
        Some(DriverEvent::Core(H3Event::WebTransportSession(event))) => event.is_same(expected),
        _ => false,
    }
}

/// Takes the next event. Returns whether it says that a session was asked for.
pub fn expect_session_pending(helper: &mut DriverTestHelper, stream_id: u64) -> (met: bool)
    requires
        old(helper).wf(),
    ensures
        final(helper).wf(),
        final(helper)@ == old(helper)@.event_taken(),
        met == (old(helper)@.next_event() == Some(
            Told::Session(SessionEvent::Pending { session_id: stream_id }),
        )),
{
    expect_session_event(helper, &WebTransportSessionEvent::Pending { session_id: stream_id })
}

/// Takes the next event. Returns whether it says that a session was accepted.
pub fn expect_session_accepted(helper: &mut DriverTestHelper, stream_id: u64) -> (met: bool)
    requires
        old(helper).wf(),
    ensures
        final(helper).wf(),
        final(helper)@ == old(helper)@.event_taken(),
        met == (old(helper)@.next_event() == Some(
            Told::Session(SessionEvent::Accepted { session_id: stream_id }),
        )),
{
    expect_session_event(helper, &WebTransportSessionEvent::Accepted { session_id: stream_id })
}

/// Takes the next event. Returns whether it says that a session was rejected.
pub fn expect_session_rejected(helper: &mut DriverTestHelper, stream_id: u64, status: u16) -> (met:
    bool)
    requires
        old(helper).wf(),
    ensures
        final(helper).wf(),
        final(helper)@ == old(helper)@.event_taken(),
        met == (old(helper)@.next_event() == Some(
            Told::Session(SessionEvent::Rejected { session_id: stream_id, status }),
        )),
{
    expect_session_event(
        helper,
        &WebTransportSessionEvent::Rejected { session_id: stream_id, status },
    )
}

/// Takes the next event. Returns whether it says that a session ended for the
/// given reason.
pub fn expect_session_terminated(
    helper: &mut DriverTestHelper,
    stream_id: u64,
    expected_reason: WebTransportSessionCloseReason,
) -> (met: bool)
    requires
        old(helper).wf(),
    ensures
        final(helper).wf(),
        final(helper)@ == old(helper)@.event_taken(),
        met == (old(helper)@.next_event() == Some(
            Told::Session(
                SessionEvent::Terminated { session_id: stream_id, reason: expected_reason@ },
            ),
        )),
{
    expect_session_event(
        helper,
        &WebTransportSessionEvent::Terminated { session_id: stream_id, reason: expected_reason },
    )
}

/// Takes the next event. Returns whether it hands the given stream over.
pub fn expect_associated_stream(
    helper: &mut DriverTestHelper,
    session_id: u64,
    stream_id: u64,
    direction: WebTransportStreamDirection,
    prefix_len: usize,
) -> (met: bool)
    requires
        old(helper).wf(),
    ensures
        final(helper).wf(),
        final(helper)@ == old(helper)@.event_taken(),
        met == (old(helper)@.next_event() == Some(
            Told::Session(
                SessionEvent::AssociatedStream { session_id, stream_id, direction, prefix_len },
            ),
        )),
{
    expect_session_event(
        helper,
        &WebTransportSessionEvent::AssociatedStream {
            session_id,
            stream_id,
            direction,
            prefix_len,
        },
    )
}

/// Takes the next event. Returns whether there is none, though one can still come.
pub fn assert_no_driver_event(helper: &mut DriverTestHelper) -> (met: bool)
    requires
        old(helper).wf(),
    ensures
        final(helper).wf(),
        final(helper)@ == old(helper)@.event_taken(),
        met == (old(helper)@.next_event() is None && old(helper)@.driver.core.events.lane.open),
{
    let closed = helper.is_event_lane_closed();
    helper.recv_event().is_none() && !closed
}

/// The state after the application took its oldest `count` events.
pub open spec fn events_drained(state: HelperState, count: nat) -> HelperState
    decreases count,
{
    if count == 0 {
        state
    } else {
        events_drained(state.event_taken(), (count - 1) as nat)
    }
}

/// Whether the event at `index` is the first that is about a session.
pub open spec fn is_first_session_event(events: Seq<Told>, index: int) -> bool {
    &&& 0 <= index < events.len()
    &&& events[index] is Session
    &&& forall|i: int| 0 <= i < index ==> !(#[trigger] events[i] is Session)
}

/// Takes events until there is none, or one that is about a session. Returns whether
/// none was. Those behind the first that is about a session stay.
pub fn assert_no_webtransport_session_event(helper: &mut DriverTestHelper) -> (met: bool)
    requires
        old(helper).wf(),
    ensures
        final(helper).wf(),
        ({
            let events = old(helper)@.driver.core.events.lane.items;
            if forall|i: int| 0 <= i < events.len() ==> !(#[trigger] events[i] is Session) {
                met && final(helper)@ == events_drained(old(helper)@, events.len())
            } else {
                !met && exists|k: int| #[trigger]
                    is_first_session_event(events, k) && final(helper)@ == events_drained(
                        old(helper)@,
                        (k + 1) as nat,
                    )
            }
        }),
{
    let ghost all = helper@.driver.core.events.lane.items;
    let ghost mut i: int = 0;
    assert(all.skip(0) =~= all);
    loop
        invariant
            helper.wf(),
            0 <= i <= all.len(),
            all == old(helper)@.driver.core.events.lane.items,
            helper@.driver.core.events.lane.items == all.skip(i),
            helper@ == events_drained(old(helper)@, i as nat),
            forall|k: int| 0 <= k < i ==> !(#[trigger] all[k] is Session),
        decreases all.len() - i,
    {
        assert(i < all.len() ==> all.skip(i)[0] == all[i]);
        assert(i < all.len() ==> all.skip(i).skip(1) =~= all.skip(i + 1));
        proof {
            lemma_one_more_drained(old(helper)@, i as nat);
            reveal(HelperState::event_taken);
            reveal(HelperState::next_event);
        }
        match helper.recv_event() {
            Some(DriverEvent::Core(H3Event::WebTransportSession(_))) => {
                assert(is_first_session_event(all, i));
                return false;
            },
            Some(_) => {
                proof {
                    i = i + 1;
                }
            },
            None => {
                return true;
            },
        }
    }
}

proof fn lemma_one_more_drained(state: HelperState, count: nat)
    ensures
        events_drained(state, count + 1) == events_drained(state, count).event_taken(),
    decreases count,
{
    reveal_with_fuel(events_drained, 2);
    if count > 0 {
        lemma_one_more_drained(state.event_taken(), (count - 1) as nat);
    }
}

/// Takes the next event. Returns the flow, if it says that there is a new one.
fn expect_new_flow(helper: &mut DriverTestHelper) -> (flow_id: Option<u64>)
    requires
        old(helper).wf(),
    ensures
        final(helper).wf(),
        final(helper)@ == old(helper)@.event_taken(),
        flow_id == (match old(helper)@.next_event() {
            Some(Told::NewFlow { flow_id: id }) => Some(id),
            _ => None,
        }),
{
    match helper.recv_event() {
        Some(DriverEvent::Core(H3Event::NewFlow { flow_id })) => Some(flow_id),
        _ => None,
    }
}

/// Takes the next event. Returns the stream, if it says that a request arrived.
fn expect_headers(helper: &mut DriverTestHelper) -> (stream_id: Option<u64>)
    requires
        old(helper).wf(),
    ensures
        final(helper).wf(),
        final(helper)@ == old(helper)@.event_taken(),
        stream_id == (match old(helper)@.next_event() {
            Some(Told::Headers { stream_id: id, .. }) => Some(id),
            _ => None,
        }),
{
    match helper.recv_event() {
        Some(DriverEvent::Headers { stream_id, .. }) => Some(stream_id),
        _ => None,
    }
}

/// What opening a datagram flow comes to. Everything ends where a turn fails, the
/// peer cannot send the request, or an event is not the expected one.
#[verifier::opaque]
pub open spec fn flow_opening(
    state: HelperState,
    headers: Vec<Header>,
    after: HelperState,
    flow_id: Option<u64>,
) -> bool {
    let started = state.handshaken().ran();
    let asked = started.peer_requested(headers, false);
    let requested = asked.ran();
    &&& fields(headers@) == flow_request_fields()
    &&& if !state.handshaken().runs_well() || started.peer_requests >= MAX_STREAM_INDEX {
        flow_id is None && after == started
    } else if !asked.runs_well() {
        flow_id is None && after == requested
    } else {
        match requested.next_event() {
            Some(Told::NewFlow { flow_id: id }) => {
                &&& after == requested.event_taken().event_taken()
                &&& flow_id == (if requested.event_taken().next_event() matches Some(
                    Told::Headers { .. },
                ) {
                    Some(id)
                } else {
                    None
                })
            },
            _ => flow_id is None && after == requested.event_taken(),
        }
    }
}

/// Completes the handshake and lets the peer open a datagram flow. Returns the
/// flow, if both turns go well and the application learns of the flow and then of
/// the request.
pub fn open_datagram_flow(helper: &mut DriverTestHelper) -> (flow_id: Option<u64>)
    requires
        old(helper).wf(),
    ensures
        final(helper).wf(),
        exists|headers: Vec<Header>| #[trigger]
            flow_opening(old(helper)@, headers, final(helper)@, flow_id),
{
    let headers = flow_request_headers();
    let ghost list = headers;
    helper.complete_handshake();
    if helper.advance_and_run_loop().is_err() {
        assert(flow_opening(old(helper)@, list, helper@, None)) by {
            reveal(flow_opening);
        }
        return None;
    }
    if helper.peer_client_send_request(headers, false).is_none() {
        assert(flow_opening(old(helper)@, list, helper@, None)) by {
            reveal(flow_opening);
        }
        return None;
    }
    if helper.advance_and_run_loop().is_err() {
        assert(flow_opening(old(helper)@, list, helper@, None)) by {
            reveal(flow_opening);
        }
        return None;
    }
    let flow_id = match expect_new_flow(helper) {
        Some(flow_id) => match expect_headers(helper) {
            Some(_) => Some(flow_id),
            None => None,
        },
        None => None,
    };
    assert(flow_opening(old(helper)@, list, helper@, flow_id)) by {
        reveal(flow_opening);
    }
    flow_id
}

/// Completes the handshake and runs the first turn.
pub fn start_webtransport_driver(helper: &mut DriverTestHelper) -> (result: Result<
    (),
    H3ConnectionError,
>)
    requires
        old(helper).wf(),
    ensures
        final(helper).wf(),
        final(helper)@ == old(helper)@.handshaken().ran(),
        result == old(helper)@.handshaken().advanced().turned().driver.core.verdict(),
        result is Ok <==> old(helper)@.handshaken().runs_well(),
{
    helper.complete_handshake();
    helper.advance_and_run_loop()
}

/// What it comes to when the peer asks for a session. Everything ends where the peer
/// cannot send the request, the turn fails, or an event is not the expected one.
#[verifier::opaque]
pub open spec fn session_opening(
    state: HelperState,
    headers: Vec<Header>,
    after: HelperState,
    stream_id: Option<u64>,
) -> bool {
    let id = state.next_request();
    let asked = state.peer_requested(headers, false);
    let requested = asked.ran();
    &&& fields(headers@) == session_request_fields()
    &&& if state.peer_requests >= MAX_STREAM_INDEX {
        stream_id is None && after == state
    } else if !asked.runs_well() {
        stream_id is None && after == requested
    } else if requested.next_event() != Some(
        Told::Session(SessionEvent::Pending { session_id: id }),
    ) {
        stream_id is None && after == requested.event_taken()
    } else {
        &&& after == requested.event_taken().event_taken()
        &&& stream_id == (if requested.event_taken().next_event() matches Some(
            Told::Headers { stream_id: told, .. },
        ) && told == id {
            Some(id)
        } else {
            None
        })
    }
}

/// Lets the peer ask for a session. Returns the stream, if the turn goes well and
/// the application learns of the session and then of the request.
pub fn open_pending_webtransport_session(helper: &mut DriverTestHelper) -> (stream_id: Option<u64>)
    requires
        old(helper).wf(),
    ensures
        final(helper).wf(),
        exists|headers: Vec<Header>| #[trigger]
            session_opening(old(helper)@, headers, final(helper)@, stream_id),
{
    let headers = make_webtransport_request_headers();
    let ghost list = headers;
    let id: u64 = match helper.peer_client_send_request(headers, false) {
        Some(id) => id,
        None => {
            assert(session_opening(old(helper)@, list, helper@, None)) by {
                reveal(session_opening);
            }
            return None;
        },
    };
    if helper.advance_and_run_loop().is_err() {
        assert(session_opening(old(helper)@, list, helper@, None)) by {
            reveal(session_opening);
        }
        return None;
    }
    if !expect_session_pending(helper, id) {
        assert(session_opening(old(helper)@, list, helper@, None)) by {
            reveal(session_opening);
        }
        return None;
    }
    let stream_id = match expect_headers(helper) {
        Some(stream_id) => if stream_id == id {
            Some(id)
        } else {
            None
        },
        None => None,
    };
    assert(session_opening(old(helper)@, list, helper@, stream_id)) by {
        reveal(session_opening);
    }
    stream_id
}

/// The application answers a request. Returns whether the driver took the
/// answer.
pub fn send_response_status(helper: &mut DriverTestHelper, stream_id: u64, status: u16) -> (taken:
    bool)
    requires
        old(helper).wf(),
    ensures
        final(helper).wf(),
        match lookup(old(helper)@.driver.core.streams, stream_id) {
            Some(stream) => if stream.outbound_open && stream.outbound is None {
                taken && exists|headers: Vec<Header>|
                    {
                        &&& #[trigger] fields(headers@) == response_fields(status)
                        &&& final(helper)@ == response_waiting(
                            old(helper)@,
                            stream_id,
                            stream,
                            headers,
                        )
                    }
            } else {
                !taken && final(helper)@ == old(helper)@
            },
            None => !taken && final(helper)@ == old(helper)@,
        },
{
    match helper.app_send(stream_id, OutboundFrame::Headers(response_headers(status))) {
        FrameAdmission::Accepted => true,
        _ => false,
    }
}

/// The state with an answer waiting for the driver.
pub open spec fn response_waiting(
    state: HelperState,
    stream_id: u64,
    stream: RequestStream,
    headers: Vec<Header>,
) -> HelperState {
    state.with_core(
        state.driver.core.with_row(
            stream_id,
            RequestStream { outbound: Some(OutboundFrame::Headers(headers)), ..stream },
        ),
    )
}

/// What accepting a session comes to: where the driver takes the answer, it leaves in
/// the next turn, and the application and the peer learn of it. Everything ends where
/// the answer is not taken, the turn fails, or the event is not the expected one.
#[verifier::opaque]
pub open spec fn accepting(
    state: HelperState,
    stream_id: u64,
    headers: Vec<Header>,
    after: HelperState,
    met: bool,
) -> bool {
    match lookup(state.driver.core.streams, stream_id) {
        Some(stream) => if stream.outbound_open && stream.outbound is None {
            let answered = response_waiting(state, stream_id, stream, headers);
            let told = answered.ran().event_taken();
            &&& fields(headers@) == response_fields(200)
            &&& if !answered.runs_well() {
                !met && after == answered.ran()
            } else if answered.ran().next_event() != Some(
                Told::Session(SessionEvent::Accepted { session_id: stream_id }),
            ) {
                !met && after == told
            } else {
                &&& after == told.with_core(told.driver.core.peer_polled())
                &&& met == (told.driver.core.peer_event() == Some((stream_id, PeerEvent::Headers)))
            }
        } else {
            !met && after == state
        },
        None => !met && after == state,
    }
}

/// Lets the application accept a session. Returns whether the turn goes well and it
/// and the peer learn of that.
pub fn accept_pending_webtransport_session(helper: &mut DriverTestHelper, stream_id: u64) -> (met:
    bool)
    requires
        old(helper).wf(),
    ensures
        final(helper).wf(),
        exists|headers: Vec<Header>| #[trigger]
            accepting(old(helper)@, stream_id, headers, final(helper)@, met),
{
    if !send_response_status(helper, stream_id, 200) {
        assert(accepting(old(helper)@, stream_id, arbitrary(), helper@, false)) by {
            reveal(accepting);
        }
        return false;
    }
    let ghost row = lookup(old(helper)@.driver.core.streams, stream_id)->Some_0;
    let ghost list = choose|headers: Vec<Header>|
        {
            &&& #[trigger] fields(headers@) == response_fields(200)
            &&& helper@ == response_waiting(old(helper)@, stream_id, row, headers)
        };
    if helper.advance_and_run_loop().is_err() {
        assert(accepting(old(helper)@, stream_id, list, helper@, false)) by {
            reveal(accepting);
        }
        return false;
    }
    if !expect_session_accepted(helper, stream_id) {
        assert(accepting(old(helper)@, stream_id, list, helper@, false)) by {
            reveal(accepting);
        }
        return false;
    }
    let met = match helper.peer_poll() {
        Some((id, event)) => id == stream_id && event == PeerEvent::Headers,
        None => false,
    };
    assert(accepting(old(helper)@, stream_id, list, helper@, met)) by {
        reveal(accepting);
    }
    met
}

/// What the whole way to an accepted session comes to. It ends with the first step
/// that does not go as it should.
#[verifier::opaque]
pub open spec fn session_accepting(
    state: HelperState,
    asked: Vec<Header>,
    told: HelperState,
    answer: Vec<Header>,
    after: HelperState,
    stream_id: Option<u64>,
) -> bool {
    let started = state.handshaken().ran();
    if !state.handshaken().runs_well() {
        stream_id is None && after == started
    } else {
        ||| stream_id is None && session_opening(started, asked, after, None)
        ||| {
            &&& session_opening(started, asked, told, Some(started.next_request()))
            &&& accepting(told, started.next_request(), answer, after, stream_id is Some)
            &&& stream_id is Some ==> stream_id == Some(started.next_request())
        }
    }
}

/// Completes the handshake, lets the peer ask for a session and the application
/// accept it. Returns the stream, if everything went as it should.
pub fn accept_webtransport_session(helper: &mut DriverTestHelper) -> (stream_id: Option<u64>)
    requires
        old(helper).wf(),
    ensures
        final(helper).wf(),
        exists|asked: Vec<Header>, told: HelperState, answer: Vec<Header>| #[trigger]
            session_accepting(old(helper)@, asked, told, answer, final(helper)@, stream_id),
{
    if start_webtransport_driver(helper).is_err() {
        assert(session_accepting(
            old(helper)@,
            arbitrary(),
            arbitrary(),
            arbitrary(),
            helper@,
            None,
        )) by {
            reveal(session_accepting);
        }
        return None;
    }
    let ghost started = helper@;
    let opened = open_pending_webtransport_session(helper);
    let ghost told = helper@;
    let ghost asked = choose|headers: Vec<Header>| #[trigger]
        session_opening(started, headers, told, opened);
    match opened {
        Some(id) => {
            let met = accept_pending_webtransport_session(helper, id);
            let stream_id = if met {
                Some(id)
            } else {
                None
            };
            proof {
                let answer = choose|headers: Vec<Header>| #[trigger]
                    accepting(told, id, headers, helper@, met);
                assert(session_accepting(old(helper)@, asked, told, answer, helper@, stream_id)) by {
                    reveal(session_opening);
                    reveal(session_accepting);
                }
            }
            stream_id
        },
        None => {
            assert(session_accepting(old(helper)@, asked, told, arbitrary(), helper@, None)) by {
                reveal(session_accepting);
            }
            None
        },
    }
}

/// Lets the peer catch up. Returns whether its next event is the given stream of
/// the given session.
pub fn receive_server_webtransport_stream(
    helper: &mut DriverTestHelper,
    session_id: u64,
    stream_id: u64,
    direction: WebTransportStreamDirection,
) -> (met: bool)
    requires
        old(helper).wf(),
    ensures
        final(helper).wf(),
        final(helper)@ == old(helper)@.advanced().with_core(
            old(helper)@.advanced().driver.core.peer_polled(),
        ),
        met == (old(helper)@.advanced().driver.core.peer_event() == Some(
            (
                stream_id,
                PeerEvent::WebTransportStream { session_id, direction, prefix_len: 3 },
            ),
        )),
{
    helper.advance();
    match helper.peer_poll() {
        Some((id, event)) => id == stream_id && event == (PeerEvent::WebTransportStream {
            session_id,
            direction,
            prefix_len: 3,
        }),
        None => false,
    }
}

} // verus!
