//! Scenarios of a driver at the client's end of a connection.

use vstd::prelude::*;

use crate::conn_close::H3ConnectionError;
use crate::driver::commands::{H3Command, H3CommandAdmission, H3Driver};
use crate::driver::events::{DriverEvent, H3Event, Told};
use crate::driver::helper::{DriverTestHelper, HelperState};
use crate::headers::{
    fields, response_fields, response_headers, session_request_fields, session_request_headers,
    Header,
};
use crate::peer_log::PeerEvent;
use crate::pipe_config::{default_endpoint, default_quiche_config, DriverPipe};
use crate::settings::{default_settings, Http3Settings};
use crate::transport::{Role, TransportEvent};
use crate::wt::types::{SessionEvent, WebTransportSessionEvent};

verus! {

/// Settings that offer WebTransport.
pub open spec fn webtransport_offered() -> Http3Settings {
    Http3Settings { enable_webtransport: true, ..default_settings() }
}

/// Settings that offer WebTransport.
pub fn webtransport_settings() -> (settings: Http3Settings)
    ensures
        settings == webtransport_offered(),
        settings.lanes_fit(),
{
    let mut settings = Http3Settings::default();
    settings.enable_webtransport = true;
    settings
}

/// Both ends with what WebTransport needs.
pub open spec fn webtransport_parameters() -> DriverPipe {
    DriverPipe {
        client: default_endpoint().webtransport_ready(10),
        server: default_endpoint().webtransport_ready(10),
    }
}

/// Both ends with what WebTransport needs.
pub fn webtransport_pipe() -> (pipe: DriverPipe)
    ensures
        pipe == webtransport_parameters(),
{
    let mut config = default_quiche_config();
    config.enable_dgram(true, 10, 10);
    config.enable_reset_stream_at(true);
    DriverPipe::with_config(config)
}

/// A request for a session.
pub fn webtransport_request_headers() -> (headers: Vec<Header>)
    ensures
        fields(headers@) == session_request_fields(),
{
    session_request_headers()
}

/// A client that offers WebTransport, and a peer that does, before the
/// handshake.
pub fn webtransport_helper() -> (helper: DriverTestHelper)
    ensures
        helper.wf(),
        helper@ == (HelperState {
            driver: H3Driver::fresh(
                Role::Client,
                webtransport_parameters(),
                webtransport_offered(),
            ),
            peer_offers_webtransport: true,
            peer_requests: 0,
        }),
{
    DriverTestHelper::with_pipe_and_http3_settings(
        Role::Client,
        webtransport_pipe(),
        webtransport_settings(),
    )
}

/// Completes the handshake and runs the first turn.
pub fn start_webtransport_driver(helper: &mut DriverTestHelper) -> (result: Result<
    (),
    H3ConnectionError,
>)
    requires
        old(helper).wf(),
    ensures
        final(helper).wf(),
        final(helper)@ == old(helper)@.handshaken().ran(),
        result == old(helper)@.handshaken().advanced().turned().driver.core.verdict(),
{
    helper.complete_handshake();
    helper.advance_and_run_loop()
}

/// Takes the next event. Returns whether it is the given one of a session.
pub fn expect_session_event(
    helper: &mut DriverTestHelper,
    expected: &WebTransportSessionEvent,
) -> (met: bool)
    requires
        old(helper).wf(),
    ensures
        final(helper).wf(),
        final(helper)@ == old(helper)@.event_taken(),
        met == (old(helper)@.next_event() == Some(Told::Session(expected@))),
{
    match helper.recv_event() {
        Some(DriverEvent::Core(H3Event::WebTransportSession(event))) => event.is_same(expected),
        _ => false,
    }
}

/// The state after a request for a session was handed over and all commands were
/// carried out.
pub open spec fn session_requested(
    state: HelperState,
    request_id: u64,
    headers: Vec<Header>,
) -> HelperState {
    HelperState {
        driver: state.driver.offered(
            H3Command::Request { request_id, headers, fin: false },
        ).commands_processed(),
        ..state
    }
}

/// What it comes to when the application asks for a session on the first stream of
/// the connection. Everything ends where the command is not carried out or an event is
/// not the expected one.
#[verifier::opaque]
pub open spec fn session_opening(
    state: HelperState,
    request_id: u64,
    headers: Vec<Header>,
    after: HelperState,
    stream_id: Option<u64>,
) -> bool {
    let command = H3Command::Request { request_id, headers, fin: false };
    let requested = session_requested(state, request_id, headers);
    let told = requested.event_taken().event_taken();
    let seen = told.advanced();
    &&& fields(headers@) == session_request_fields()
    &&& if state.driver.admission() != H3CommandAdmission::Accepted || state.driver.offered(
        command,
    ).commands_due() != 1 || requested.driver.core.failed is Some {
        stream_id is None && after == requested
    } else if requested.next_event() != Some(
        Told::Session(SessionEvent::Pending { session_id: 0 }),
    ) {
        stream_id is None && after == requested.event_taken()
    } else if requested.event_taken().next_event() != Some(
        Told::NewOutboundRequest { stream_id: 0, request_id },
    ) {
        stream_id is None && after == told
    } else {
        &&& after == seen.with_core(seen.driver.core.peer_polled())
        &&& stream_id == (if seen.driver.core.peer_event() == Some((0u64, PeerEvent::Headers)) {
            Some(0u64)
        } else {
            None
        })
    }
}

/// Asks for a session on the first stream of the connection and lets the peer
/// take the request. Returns the stream, if everything went as it should.
pub fn open_pending_webtransport_session(helper: &mut DriverTestHelper, request_id: u64) -> (
stream_id: Option<u64>)
    requires
        old(helper).wf(),
    ensures
        final(helper).wf(),
        exists|headers: Vec<Header>| #[trigger]
            session_opening(old(helper)@, request_id, headers, final(helper)@, stream_id),
{
    let headers = webtransport_request_headers();
    let ghost list = headers;
    let admission = helper.enqueue_request(request_id, headers, false);
    let count: usize = helper.process_commands();
    let failed = helper.has_failed();
    assert(helper@ == session_requested(old(helper)@, request_id, list));
    if admission != H3CommandAdmission::Accepted || count != 1 || failed {
        assert(session_opening(old(helper)@, request_id, list, helper@, None)) by {
            reveal(session_opening);
        }
        return None;
    }
    if !expect_session_event(helper, &WebTransportSessionEvent::Pending { session_id: 0 }) {
        assert(session_opening(old(helper)@, request_id, list, helper@, None)) by {
            reveal(session_opening);
        }
        return None;
    }
    let left = match helper.recv_event() {
        Some(DriverEvent::NewOutboundRequest { stream_id, request_id: actual }) => stream_id == 0
            && actual == request_id,
        _ => false,
    };
    if !left {
        assert(session_opening(old(helper)@, request_id, list, helper@, None)) by {
            reveal(session_opening);
        }
        return None;
    }
    helper.advance();
    let stream_id = match helper.peer_poll() {
        Some((id, event)) => if id == 0 && event == PeerEvent::Headers {
            Some(0)
        } else {
            None
        },
        None => None,
    };
    assert(session_opening(old(helper)@, request_id, list, helper@, stream_id)) by {
        reveal(session_opening);
    }
    stream_id
}

/// The peer answers a request.
pub fn peer_response_status(helper: &mut DriverTestHelper, stream_id: u64, status: u16)
    requires
        old(helper).wf(),
    ensures
        final(helper).wf(),
        exists|headers: Vec<Header>|
            {
                &&& #[trigger] fields(headers@) == response_fields(status)
                &&& final(helper)@ == old(helper)@.with_core(
                    old(helper)@.driver.core.receiving(
                        TransportEvent::Headers { stream_id, headers, fin: false },
                    ),
                )
            },
{
    helper.peer_send_headers(stream_id, response_headers(status), false);
}

} // verus!
