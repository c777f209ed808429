use h3_driver::body_buf::MIN_BODY_RECV_BUF_SIZE;
use h3_driver::client_side_driver::{
    expect_session_event, open_pending_webtransport_session, peer_response_status,
    start_webtransport_driver, webtransport_helper, webtransport_pipe,
    webtransport_request_headers, webtransport_settings,
};
use h3_driver::conn_close::H3_REQUEST_CANCELLED;
use h3_driver::driver::commands::H3CommandAdmission;
use h3_driver::driver::events::{DriverEvent, H3Event};
use h3_driver::driver::helper::DriverTestHelper;
use h3_driver::headers::{make_request_headers, response_headers, Header};
use h3_driver::peer_log::PeerEvent;
use h3_driver::pipe_config::{default_quiche_config, DriverPipe};
use h3_driver::request_stream::{
    AppRecv, FrameAdmission, H3AuditStats, InboundFrame, OutboundFrame, StreamClosureKind,
};
use h3_driver::transport::Role;
use h3_driver::wire::stream_prefix::WebTransportStreamDirection;
use h3_driver::wt::types::{WebTransportSessionCloseReason, WebTransportSessionEvent};

fn started_client() -> DriverTestHelper {
    let mut helper = DriverTestHelper::new(Role::Client);
    helper.complete_handshake();
    helper.advance_and_run_loop().unwrap();
    helper
}

/// The application asks for a request and learns its stream.
fn driver_send_request(helper: &mut DriverTestHelper, headers: Vec<Header>, fin: bool) -> u64 {
    assert_eq!(
        helper.driver.enqueue_request(1, headers, fin),
        H3CommandAdmission::Accepted
    );
    assert_eq!(helper.process_commands(), 1);
    match helper.recv_event() {
        Some(DriverEvent::NewOutboundRequest {
            stream_id,
            request_id: 1,
        }) => stream_id,
        other => panic!("unexpected event: {other:?}"),
    }
}

fn expect_request(helper: &mut DriverTestHelper, stream_id: u64) {
    assert_eq!(helper.peer_poll(), Some((stream_id, PeerEvent::Headers)));
}

/// The application learns of a response. Returns whether it ends the stream.
fn expect_response(helper: &mut DriverTestHelper, expected: u64) -> bool {
    match helper.recv_event() {
        Some(DriverEvent::Core(H3Event::IncomingHeaders {
            stream_id,
            read_fin,
        })) => {
            assert_eq!(stream_id, expected);
            read_fin
        }
        other => panic!("unexpected event: {other:?}"),
    }
}

fn server_response(helper: &mut DriverTestHelper, stream_id: u64, fin: bool) {
    helper.peer_send_headers(stream_id, response_headers(200), fin);
}

/// Reads what the driver has for the application, with the turns that the driver
/// needs to deliver all of it. Returns the body and whether it ended.
fn try_recv_body(helper: &mut DriverTestHelper, stream_id: u64) -> (Vec<u8>, bool) {
    let mut body = Vec::new();
    for _ in 0..16 {
        match helper.app_recv(stream_id) {
            AppRecv::Frame(InboundFrame::Body(bytes)) => {
                body.extend_from_slice(&bytes);
                helper.work_loop_iter().unwrap();
            }
            AppRecv::Frame(InboundFrame::Fin) => return (body, true),
            AppRecv::Empty | AppRecv::Disconnected => return (body, false),
        }
    }
    (body, false)
}

fn app_send_body(helper: &mut DriverTestHelper, stream_id: u64, data: &[u8], fin: bool) {
    assert!(matches!(
        helper.app_send(stream_id, OutboundFrame::Body(data.to_vec(), fin)),
        FrameAdmission::Accepted
    ));
}

fn audit(helper: &DriverTestHelper, stream_id: u64) -> H3AuditStats {
    helper.audit_stats(stream_id).unwrap()
}

#[test]
fn client_webtransport_admits_only_after_final_success_response() {
    let mut helper = webtransport_helper();
    start_webtransport_driver(&mut helper).unwrap();
    let stream_id = open_pending_webtransport_session(&mut helper, 7).unwrap();

    peer_response_status(&mut helper, stream_id, 200);
    helper.advance_and_run_loop().unwrap();
    assert!(expect_session_event(
        &mut helper,
        &WebTransportSessionEvent::Accepted {
            session_id: stream_id
        }
    ));
    expect_response(&mut helper, stream_id);
}

#[test]
fn client_webtransport_rejects_non_successful_final_response() {
    let mut helper = webtransport_helper();
    start_webtransport_driver(&mut helper).unwrap();
    let stream_id = open_pending_webtransport_session(&mut helper, 8).unwrap();

    peer_response_status(&mut helper, stream_id, 404);
    helper.advance_and_run_loop().unwrap();
    assert!(expect_session_event(
        &mut helper,
        &WebTransportSessionEvent::Rejected {
            session_id: stream_id,
            status: 404,
        }
    ));
    expect_response(&mut helper, stream_id);
}

#[test]
fn client_webtransport_informational_response_does_not_admit() {
    let mut helper = webtransport_helper();
    start_webtransport_driver(&mut helper).unwrap();
    let stream_id = open_pending_webtransport_session(&mut helper, 12).unwrap();

    peer_response_status(&mut helper, stream_id, 103);
    helper.advance_and_run_loop().unwrap();
    assert!(helper.recv_event().is_none());

    helper.peer_send_headers(stream_id, vec![Header::new(":status", "200")], false);
    helper.advance_and_run_loop().unwrap();
    assert!(expect_session_event(
        &mut helper,
        &WebTransportSessionEvent::Accepted {
            session_id: stream_id
        }
    ));
}

#[test]
fn client_rejects_second_session_without_consuming_a_stream_id() {
    let mut helper = webtransport_helper();
    start_webtransport_driver(&mut helper).unwrap();
    open_pending_webtransport_session(&mut helper, 21).unwrap();

    helper
        .driver
        .enqueue_request(22, webtransport_request_headers(), false);
    assert_eq!(helper.process_commands(), 1);
    assert!(matches!(
        helper.recv_event(),
        Some(DriverEvent::WebTransportRequestRejected { request_id: 22 })
    ));

    helper
        .driver
        .enqueue_request(23, make_request_headers("GET"), false);
    assert_eq!(helper.process_commands(), 1);
    assert!(matches!(
        helper.recv_event(),
        Some(DriverEvent::NewOutboundRequest {
            stream_id: 4,
            request_id: 23,
        })
    ));
}

#[test]
fn client_webtransport_buffers_associated_stream_until_response() {
    let mut helper = webtransport_helper();
    start_webtransport_driver(&mut helper).unwrap();
    let stream_id = open_pending_webtransport_session(&mut helper, 9).unwrap();

    let data = [0x40, 0x41, 0x00, b'o', b'k'];
    helper.peer_stream_send(1, data.to_vec(), true).unwrap();
    helper.advance_and_run_loop().unwrap();
    assert!(helper.recv_event().is_none());

    peer_response_status(&mut helper, stream_id, 200);
    helper.advance_and_run_loop().unwrap();
    assert!(expect_session_event(
        &mut helper,
        &WebTransportSessionEvent::Accepted {
            session_id: stream_id
        }
    ));
    expect_response(&mut helper, stream_id);
    assert!(expect_session_event(
        &mut helper,
        &WebTransportSessionEvent::AssociatedStream {
            session_id: stream_id,
            stream_id: 1,
            direction: WebTransportStreamDirection::Bidi,
            prefix_len: 3,
        }
    ));

    let (payload, fin) = helper.stream_recv(1);
    assert_eq!(payload, b"ok");
    assert!(fin);
}

#[test]
fn client_webtransport_waits_for_and_rejects_missing_peer_settings() {
    let mut helper = DriverTestHelper::with_pipe_and_http3_configs(
        Role::Client,
        webtransport_pipe(),
        webtransport_settings(),
        false,
    );
    helper.complete_handshake();
    helper.driver.core.settings_forwarded = false;

    helper
        .driver
        .enqueue_request(10, webtransport_request_headers(), false);
    assert_eq!(helper.process_commands(), 1);
    assert!(helper.recv_event().is_none());

    helper.advance_and_run_loop().unwrap();
    assert!(matches!(
        helper.recv_event(),
        Some(DriverEvent::Core(H3Event::IncomingSettings))
    ));
    assert!(matches!(
        helper.recv_event(),
        Some(DriverEvent::WebTransportRequestRejected { request_id: 10 })
    ));
    assert_eq!(helper.peer_poll(), None);
}

#[test]
fn client_webtransport_settings_only_read_releases_queued_connect() {
    let mut helper = webtransport_helper();
    helper.complete_handshake();
    helper.driver.core.settings_forwarded = false;

    helper
        .driver
        .enqueue_request(13, webtransport_request_headers(), false);
    assert_eq!(helper.process_commands(), 1);
    assert!(helper.recv_event().is_none());

    helper
        .driver
        .enqueue_request(14, webtransport_request_headers(), false);
    assert_eq!(helper.process_commands(), 1);
    assert!(matches!(
        helper.recv_event(),
        Some(DriverEvent::WebTransportRequestRejected { request_id: 14 })
    ));
    assert_eq!(helper.driver.core.queued_request, Some(13));

    helper.advance();
    helper.driver.core.process_reads().unwrap();

    assert!(matches!(
        helper.recv_event(),
        Some(DriverEvent::Core(H3Event::IncomingSettings))
    ));
    assert_eq!(helper.process_commands(), 1);
    assert!(expect_session_event(
        &mut helper,
        &WebTransportSessionEvent::Pending { session_id: 0 }
    ));
    assert!(matches!(
        helper.recv_event(),
        Some(DriverEvent::NewOutboundRequest {
            stream_id: 0,
            request_id: 13,
        })
    ));
}

#[test]
fn client_webtransport_reset_after_admission_is_terminal() {
    let mut helper = webtransport_helper();
    start_webtransport_driver(&mut helper).unwrap();
    let stream_id = open_pending_webtransport_session(&mut helper, 11).unwrap();
    peer_response_status(&mut helper, stream_id, 200);
    helper.advance_and_run_loop().unwrap();
    assert!(expect_session_event(
        &mut helper,
        &WebTransportSessionEvent::Accepted {
            session_id: stream_id
        }
    ));
    expect_response(&mut helper, stream_id);

    helper.peer_shutdown_write(stream_id, 0x61);
    helper.advance_and_run_loop().unwrap();
    assert!(expect_session_event(
        &mut helper,
        &WebTransportSessionEvent::Terminated {
            session_id: stream_id,
            reason: WebTransportSessionCloseReason::ConnectReset { error_code: 0x61 },
        }
    ));
}

/// The server's body and end arrive at a client that has ended its request.
#[test]
fn tests_client_fin_before_server_body() {
    let mut helper = started_client();

    // The client sends a request.
    let stream_id = driver_send_request(&mut helper, make_request_headers("GET"), false);

    // The server reads the request and sends response headers.
    helper.advance_and_run_loop().unwrap();
    expect_request(&mut helper, 0);
    server_response(&mut helper, 0, false);
    helper.advance_and_run_loop().unwrap();

    // The client receives the response headers and sends a body.
    assert!(!expect_response(&mut helper, stream_id));
    app_send_body(&mut helper, stream_id, &[1; 5], false);
    helper.advance_and_run_loop().unwrap();

    // The server receives the client's body.
    assert_eq!(helper.peer_poll(), Some((0, PeerEvent::Data)));
    assert_eq!(helper.peer_poll(), None);
    assert_eq!(helper.peer_recv_body(0), Some(vec![1; 5]));

    // The client ends its request, the server sends its body and ends.
    app_send_body(&mut helper, stream_id, &[], true);
    helper.peer_send_body(0, vec![2; 10], true).unwrap();

    // The server reads the end. It sees body bytes, but there are none.
    helper.advance_and_run_loop().unwrap();
    assert_eq!(helper.peer_poll(), Some((0, PeerEvent::Data)));
    assert_eq!(helper.peer_recv_body(0), None);
    assert_eq!(helper.peer_poll(), Some((0, PeerEvent::Finished)));
    assert_eq!(helper.peer_poll(), None);
    helper.advance_and_run_loop().unwrap();

    // The client receives the server's body.
    match helper.app_recv(stream_id) {
        AppRecv::Frame(InboundFrame::Body(bytes)) => assert_eq!(bytes, vec![2; 10]),
        other => panic!("unexpected frame: {other:?}"),
    }
    helper.work_loop_iter().unwrap();

    // The driver gave the stream up with the end of its own direction, so the
    // end of the body shows as a disconnected channel.
    assert!(matches!(helper.app_recv(stream_id), AppRecv::Disconnected));
    assert_eq!(helper.driver.core.stream_count(), 0);
}

#[test]
fn client_body_recv_buf() {
    let mut helper = started_client();
    let stream_id = driver_send_request(&mut helper, make_request_headers("GET"), true);

    helper.advance_and_run_loop().unwrap();
    expect_request(&mut helper, 0);
    server_response(&mut helper, 0, false);
    helper.advance_and_run_loop().unwrap();
    assert!(!expect_response(&mut helper, stream_id));

    // Set the buffer size.
    helper.driver.core.body_buf.room = Some(30);
    // The server sends an initial body of ten bytes.
    helper.peer_send_body(0, vec![2; 10], false).unwrap();
    helper.advance_and_run_loop().unwrap();
    assert_eq!(try_recv_body(&mut helper, stream_id).0, vec![2; 10]);
    helper.peer_send_body(0, vec![3; 10], false).unwrap();
    helper.advance_and_run_loop().unwrap();
    assert_eq!(try_recv_body(&mut helper, stream_id).0, vec![3; 10]);
    // That uses the initial buffer up.
    helper.peer_send_body(0, vec![4; 10], false).unwrap();
    helper.advance_and_run_loop().unwrap();
    assert_eq!(try_recv_body(&mut helper, stream_id).0, vec![4; 10]);
    // The next read uses a new buffer.
    helper.peer_send_body(0, vec![5; 10], true).unwrap();
    helper.advance_and_run_loop().unwrap();

    let (body, fin) = try_recv_body(&mut helper, stream_id);
    assert_eq!(body, vec![5; 10]);
    assert!(fin);
    assert_eq!(helper.driver.core.stream_count(), 0);
}

/// An idle connection, and an exchange of headers alone, never allocates the
/// body receive buffer.
#[test]
fn client_body_recv_buf_not_allocated_when_idle() {
    let mut helper = started_client();
    assert!(helper.driver.core.body_buf.room.is_none());

    let stream_id = driver_send_request(&mut helper, make_request_headers("GET"), true);
    helper.advance_and_run_loop().unwrap();
    expect_request(&mut helper, 0);
    server_response(&mut helper, 0, true);
    helper.advance_and_run_loop().unwrap();

    assert!(expect_response(&mut helper, stream_id));
    assert!(helper.driver.core.body_buf.room.is_none());
}

/// The body receive buffer is allocated on the first body read and released once
/// the last stream is gone.
#[test]
fn client_body_recv_buf_allocated_on_body_and_released_on_close() {
    let mut helper = started_client();
    let stream_id = driver_send_request(&mut helper, make_request_headers("GET"), true);
    helper.advance_and_run_loop().unwrap();
    expect_request(&mut helper, 0);
    server_response(&mut helper, 0, false);
    helper.advance_and_run_loop().unwrap();
    expect_response(&mut helper, stream_id);

    assert!(helper.driver.core.body_buf.room.is_none());

    helper.peer_send_body(0, vec![7; 10], false).unwrap();
    helper.advance_and_run_loop().unwrap();
    assert_eq!(try_recv_body(&mut helper, stream_id).0, vec![7; 10]);

    // The buffer has the size of the floor, as less was readable.
    assert!(helper.driver.core.body_buf.room.is_some());
    assert!(helper.driver.core.body_buf.room.unwrap() <= MIN_BODY_RECV_BUF_SIZE);

    helper.peer_send_body(0, vec![8; 10], true).unwrap();
    helper.advance_and_run_loop().unwrap();
    let (body, fin) = try_recv_body(&mut helper, stream_id);
    assert_eq!(body, vec![8; 10]);
    assert!(fin);

    assert_eq!(helper.driver.core.stream_count(), 0);
    assert!(helper.driver.core.body_buf.room.is_none());
}

/// A body larger than the receive buffer has it allocated anew; it is released
/// once the stream closes.
#[test]
fn client_body_recv_buf_reallocates_and_releases() {
    let mut helper = started_client();
    let stream_id = driver_send_request(&mut helper, make_request_headers("GET"), true);
    helper.advance_and_run_loop().unwrap();
    expect_request(&mut helper, 0);
    server_response(&mut helper, 0, false);
    helper.advance_and_run_loop().unwrap();
    expect_response(&mut helper, stream_id);

    // A receive buffer smaller than what is wanted for each read.
    helper.driver.core.body_buf.room = Some(20);

    for byte in [1, 2, 3] {
        helper.peer_send_body(0, vec![byte; 10], false).unwrap();
        helper.advance_and_run_loop().unwrap();
        assert_eq!(try_recv_body(&mut helper, stream_id).0, vec![byte; 10]);
    }
    assert!(helper.driver.core.body_buf.room.is_some());

    helper.peer_send_body(0, vec![4; 10], true).unwrap();
    helper.advance_and_run_loop().unwrap();
    let (body, fin) = try_recv_body(&mut helper, stream_id);
    assert_eq!(body, vec![4; 10]);
    assert!(fin);

    assert_eq!(helper.driver.core.stream_count(), 0);
    assert!(helper.driver.core.body_buf.room.is_none());
}

/// An exhausted receive buffer is released while its stream remains active, and
/// allocated again for the bytes that follow.
#[test]
fn client_body_recv_buf_releases_when_exhausted() {
    // Permit one full floor-sized body in a single frame.
    let mut config = default_quiche_config();
    let max_data = 2 * MIN_BODY_RECV_BUF_SIZE as u64;
    config.initial_max_data = max_data;
    config.set_initial_max_stream_data_bidi_local(max_data);
    config.set_initial_max_stream_data_bidi_remote(max_data);
    config.initial_max_stream_data_uni = max_data;
    let mut helper = DriverTestHelper::with_pipe(Role::Client, DriverPipe::with_config(config));
    helper.complete_handshake();
    helper.advance_and_run_loop().unwrap();

    let stream_id = driver_send_request(&mut helper, make_request_headers("GET"), true);
    helper.advance_and_run_loop().unwrap();
    expect_request(&mut helper, 0);
    server_response(&mut helper, 0, false);
    helper.advance_and_run_loop().unwrap();
    expect_response(&mut helper, stream_id);

    let full_body = vec![1; MIN_BODY_RECV_BUF_SIZE];
    assert_eq!(
        helper.peer_send_body(0, full_body.clone(), false),
        Ok(full_body.len())
    );
    helper.advance_and_run_loop().unwrap();
    assert_eq!(try_recv_body(&mut helper, stream_id).0, full_body);
    assert_eq!(helper.driver.core.stream_count(), 1);
    assert!(helper.driver.core.body_buf.room.is_none());

    helper.peer_send_body(0, vec![2; 10], false).unwrap();
    helper.advance_and_run_loop().unwrap();
    assert_eq!(try_recv_body(&mut helper, stream_id).0, vec![2; 10]);
    assert!(helper.driver.core.body_buf.room.is_some());

    helper.peer_send_body(0, vec![3; 10], true).unwrap();
    helper.advance_and_run_loop().unwrap();
    let (body, fin) = try_recv_body(&mut helper, stream_id);
    assert_eq!(body, vec![3; 10]);
    assert!(fin);
    assert_eq!(helper.driver.core.stream_count(), 0);
    assert!(helper.driver.core.body_buf.room.is_none());
}

/// Giving the sending handle up resets the stream.
#[test]
fn client_send_reset_stream_when_outbound_frame_channel_drops() {
    let mut helper = started_client();
    let stream_id = driver_send_request(&mut helper, make_request_headers("GET"), false);

    helper.advance_and_run_loop().unwrap();
    expect_request(&mut helper, 0);
    server_response(&mut helper, 0, false);
    helper.advance_and_run_loop().unwrap();

    assert!(!expect_response(&mut helper, stream_id));
    // The stream waits for something to write.
    assert_eq!(helper.driver.core.waiting_stream_count(), 1);
    helper.drop_sender(stream_id);
    helper.advance_and_run_loop().unwrap();

    // The server receives the reset.
    assert_eq!(
        helper.peer_poll(),
        Some((
            0,
            PeerEvent::Reset {
                error_code: H3_REQUEST_CANCELLED
            }
        ))
    );
    assert_eq!(helper.peer_poll(), None);

    helper.peer_send_body(0, vec![2; 10], true).unwrap();
    helper.advance_and_run_loop().unwrap();

    // The client receives the server's body.
    match helper.app_recv(stream_id) {
        AppRecv::Frame(InboundFrame::Body(bytes)) => assert_eq!(bytes, vec![2; 10]),
        other => panic!("unexpected frame: {other:?}"),
    }
    helper.work_loop_iter().unwrap();
    assert_eq!(helper.driver.core.stream_count(), 0);
    let stats = audit(&helper, stream_id);
    assert_eq!(stats.recvd_stop_sending_error_code, -1);
    assert_eq!(stats.recvd_reset_stream_error_code, -1);
    assert_eq!(stats.sent_reset_stream_error_code, H3_REQUEST_CANCELLED as i64);
    assert_eq!(stats.sent_stop_sending_error_code, -1);
    assert_eq!(stats.recvd_stream_fin, StreamClosureKind::Explicit);
    assert_eq!(stats.sent_stream_fin, StreamClosureKind::NotClosed);
    assert_eq!(stats.downstream_bytes_recvd, 10);
    assert_eq!(stats.downstream_bytes_sent, 0);
}

/// Giving the sending handle up resets the stream, also behind the server's end.
#[test]
fn client_send_reset_stream_when_outbound_frame_channel_drops_2() {
    let mut helper = started_client();
    let stream_id = driver_send_request(&mut helper, make_request_headers("GET"), false);

    helper.advance_and_run_loop().unwrap();
    expect_request(&mut helper, 0);
    server_response(&mut helper, 0, false);
    helper.peer_send_body(0, vec![2; 10], true).unwrap();
    helper.advance_and_run_loop().unwrap();

    assert!(!expect_response(&mut helper, stream_id));
    let (body, fin) = try_recv_body(&mut helper, stream_id);
    assert_eq!(body, vec![2; 10]);
    assert!(fin);
    helper.advance_and_run_loop().unwrap();

    // Close the channel.
    helper.drop_sender(stream_id);
    helper.advance_and_run_loop().unwrap();

    // The server receives the reset.
    assert_eq!(
        helper.peer_poll(),
        Some((
            0,
            PeerEvent::Reset {
                error_code: H3_REQUEST_CANCELLED
            }
        ))
    );
    assert_eq!(helper.peer_poll(), None);
    helper.advance_and_run_loop().unwrap();

    assert_eq!(helper.driver.core.stream_count(), 0);
    let stats = audit(&helper, stream_id);
    assert_eq!(stats.recvd_stop_sending_error_code, -1);
    assert_eq!(stats.recvd_reset_stream_error_code, -1);
    assert_eq!(stats.sent_reset_stream_error_code, H3_REQUEST_CANCELLED as i64);
    assert_eq!(stats.sent_stop_sending_error_code, -1);
    assert_eq!(stats.recvd_stream_fin, StreamClosureKind::Explicit);
    assert_eq!(stats.sent_stream_fin, StreamClosureKind::NotClosed);
    assert_eq!(stats.downstream_bytes_recvd, 10);
    assert_eq!(stats.downstream_bytes_sent, 0);
}

/// Data is sent until the stream takes no more, then the sending handle is given
/// up.
#[test]
fn client_send_reset_stream_with_full_stream() {
    let mut config = default_quiche_config();
    config.set_initial_max_stream_data_bidi_local(30);
    config.set_initial_max_stream_data_bidi_remote(30);
    let mut helper = DriverTestHelper::with_pipe(Role::Client, DriverPipe::with_config(config));
    helper.complete_handshake();
    helper.advance_and_run_loop().unwrap();

    let stream_id = driver_send_request(&mut helper, make_request_headers("GET"), false);
    helper.advance_and_run_loop().unwrap();
    expect_request(&mut helper, 0);
    server_response(&mut helper, 0, true);
    helper.advance_and_run_loop().unwrap();
    assert!(expect_response(&mut helper, stream_id));

    // A body for which there is not enough flow control.
    app_send_body(&mut helper, stream_id, &[23; 50], false);
    assert_eq!(helper.driver.core.waiting_stream_count(), 1);
    helper.work_loop_iter().unwrap();
    let written = audit(&helper, stream_id).downstream_bytes_sent;
    assert!(written < 50);

    // The stream is writable again, but the driver has had no turn yet.
    helper.advance();
    while helper.peer_poll().is_some() {}
    assert_eq!(helper.peer_recv_body(0).unwrap().len(), written as usize);
    helper.advance();
    assert_eq!(helper.driver.core.waiting_stream_count(), 0);
    assert!(helper.stream(0).unwrap().outbound_open);
    assert!(helper.stream(0).unwrap().queued.is_some());

    // Close the channel.
    helper.drop_sender(stream_id);
    helper.work_loop_iter().unwrap();
    assert_eq!(
        audit(&helper, stream_id).sent_reset_stream_error_code,
        H3_REQUEST_CANCELLED as i64
    );
    helper.advance_and_run_loop().unwrap();

    // The server receives the reset.
    assert_eq!(
        helper.peer_poll(),
        Some((
            0,
            PeerEvent::Reset {
                error_code: H3_REQUEST_CANCELLED
            }
        ))
    );
    assert_eq!(helper.peer_poll(), None);
    helper.advance_and_run_loop().unwrap();

    assert_eq!(helper.driver.core.stream_count(), 0);
    let stats = audit(&helper, stream_id);
    assert_eq!(stats.recvd_stop_sending_error_code, -1);
    assert_eq!(stats.recvd_reset_stream_error_code, -1);
    assert_eq!(stats.sent_reset_stream_error_code, H3_REQUEST_CANCELLED as i64);
    assert_eq!(stats.sent_stop_sending_error_code, -1);
    assert_eq!(stats.recvd_stream_fin, StreamClosureKind::Explicit);
    assert_eq!(stats.sent_stream_fin, StreamClosureKind::NotClosed);
}

/// Giving the sending handle up behind an end changes nothing.
#[test]
fn client_drop_outbound_frame_channel_after_fin_no_reset() {
    let mut helper = started_client();
    let stream_id = driver_send_request(&mut helper, make_request_headers("GET"), false);

    helper.advance_and_run_loop().unwrap();
    expect_request(&mut helper, 0);
    server_response(&mut helper, 0, false);
    helper.advance_and_run_loop().unwrap();

    assert!(!expect_response(&mut helper, stream_id));
    helper.advance_and_run_loop().unwrap();
    app_send_body(&mut helper, stream_id, &[], true);
    helper.advance_and_run_loop().unwrap();

    // Close the channel.
    helper.drop_sender(stream_id);

    helper.advance_and_run_loop().unwrap();
    assert_eq!(helper.peer_send_body(0, vec![42], true), Ok(1));
    helper.advance_and_run_loop().unwrap();

    // The server receives the end.
    assert_eq!(helper.peer_poll(), Some((0, PeerEvent::Data)));
    assert_eq!(helper.peer_recv_body(0), None);
    assert_eq!(helper.peer_poll(), Some((0, PeerEvent::Finished)));
    assert_eq!(helper.peer_poll(), None);

    helper.advance_and_run_loop().unwrap();

    // The client receives the body and its end.
    let (body, fin) = try_recv_body(&mut helper, stream_id);
    assert_eq!(body, &[42]);
    assert!(fin);

    assert_eq!(helper.driver.core.stream_count(), 0);
    let stats = audit(&helper, stream_id);
    assert_eq!(stats.recvd_stop_sending_error_code, -1);
    assert_eq!(stats.recvd_reset_stream_error_code, -1);
    assert_eq!(stats.sent_reset_stream_error_code, -1);
    assert_eq!(stats.sent_stop_sending_error_code, -1);
    assert_eq!(stats.recvd_stream_fin, StreamClosureKind::Explicit);
    assert_eq!(stats.sent_stream_fin, StreamClosureKind::Explicit);
    assert_eq!(stats.downstream_bytes_recvd, 1);
    assert_eq!(stats.downstream_bytes_sent, 0);
}

/// A GOAWAY in the middle of a response does not end the request.
#[test]
fn client_receives_goaway_during_streaming_response() {
    let mut helper = started_client();
    let stream_id = driver_send_request(&mut helper, make_request_headers("GET"), true);
    assert_eq!(stream_id, 0);

    helper.advance_and_run_loop().unwrap();
    expect_request(&mut helper, 0);
    server_response(&mut helper, 0, false);
    helper.peer_send_body(0, vec![1; 10], false).unwrap();
    helper.advance_and_run_loop().unwrap();

    assert!(!expect_response(&mut helper, stream_id));
    assert_eq!(try_recv_body(&mut helper, stream_id).0, vec![1; 10]);

    // The stream was accepted, but no later one will be.
    helper.peer_send_goaway(stream_id + 4);
    helper.peer_send_body(0, vec![2; 10], false).unwrap();
    helper.advance_and_run_loop().unwrap();

    assert_eq!(try_recv_body(&mut helper, stream_id).0, vec![2; 10]);

    loop {
        match helper.recv_event() {
            Some(DriverEvent::Core(H3Event::GoAway { id })) => {
                assert_eq!(id, stream_id + 4);
                break;
            }
            Some(DriverEvent::Core(H3Event::BodyBytesReceived { .. })) => continue,
            other => panic!("unexpected event: {other:?}"),
        }
    }

    helper.peer_send_body(0, vec![3; 10], true).unwrap();
    helper.advance_and_run_loop().unwrap();
    let (body, _fin) = try_recv_body(&mut helper, stream_id);
    assert_eq!(body, vec![3; 10]);
}
