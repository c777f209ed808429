use h3_driver::conn_close::{H3_NO_ERROR, H3_REQUEST_CANCELLED};
use h3_driver::driver::commands::H3CommandAdmission;
use h3_driver::driver::events::{DriverEvent, H3Event};
use h3_driver::driver::flows::StreamShutdown;
use h3_driver::driver::helper::DriverTestHelper;
use h3_driver::driver::state::FlowFrame;
use h3_driver::headers::{flow_request_headers, make_request_headers, response_headers, Header};
use h3_driver::peer_log::PeerEvent;
use h3_driver::pipe_config::{default_quiche_config, DriverPipe};
use h3_driver::request_stream::{
    AppRecv, FrameAdmission, H3AuditStats, InboundFrame, OutboundFrame, StreamClosureKind,
};
use h3_driver::settings::Http3Settings;
use h3_driver::transport::Role;
use h3_driver::wire::datagram::encode_datagram;

fn started_server() -> DriverTestHelper {
    let mut helper = DriverTestHelper::new(Role::Server);
    helper.complete_handshake();
    helper.advance_and_run_loop().unwrap();
    helper
}

/// The application learns of a request. Returns whether it ends the stream.
fn server_request(helper: &mut DriverTestHelper, expected: u64) -> bool {
    match helper.recv_event() {
        Some(DriverEvent::Headers {
            stream_id,
            read_fin,
        }) => {
            assert_eq!(stream_id, expected);
            read_fin
        }
        other => panic!("unexpected event: {other:?}"),
    }
}

fn open_request(helper: &mut DriverTestHelper, method: &str, fin: bool) -> u64 {
    let stream_id = helper
        .peer_client_send_request(make_request_headers(method), fin)
        .unwrap();
    helper.advance_and_run_loop().unwrap();
    assert_eq!(server_request(helper, stream_id), fin);
    stream_id
}

fn server_send(helper: &mut DriverTestHelper, stream_id: u64, frame: OutboundFrame) {
    assert!(matches!(
        helper.app_send(stream_id, frame),
        FrameAdmission::Accepted
    ));
}

fn server_send_headers(helper: &mut DriverTestHelper, stream_id: u64) {
    server_send(helper, stream_id, OutboundFrame::Headers(response_headers(200)));
}

fn server_send_body(helper: &mut DriverTestHelper, stream_id: u64, data: &[u8], fin: bool) {
    server_send(helper, stream_id, OutboundFrame::Body(data.to_vec(), fin));
}

/// Reads what the driver has for the application, with the turns that the driver
/// needs to deliver all of it. Returns the body and whether it ended.
fn server_try_recv_body(helper: &mut DriverTestHelper, stream_id: u64) -> (Vec<u8>, bool) {
    let mut body = Vec::new();
    for _ in 0..16 {
        match helper.app_recv(stream_id) {
            AppRecv::Frame(InboundFrame::Body(bytes)) => {
                body.extend_from_slice(&bytes);
                helper.work_loop_iter().unwrap();
            }
            AppRecv::Frame(InboundFrame::Fin) => return (body, true),
            AppRecv::Empty | AppRecv::Disconnected => return (body, false),
        }
    }
    (body, false)
}

fn expect_client_response(helper: &mut DriverTestHelper) {
    assert_eq!(helper.peer_poll(), Some((0, PeerEvent::Headers)));
}

fn server_audit(helper: &DriverTestHelper) -> H3AuditStats {
    helper.audit_stats(0).unwrap()
}

fn expect_body_bytes(helper: &mut DriverTestHelper, expected: u64) {
    assert!(matches!(
        helper.recv_event(),
        Some(DriverEvent::Core(H3Event::BodyBytesReceived {
            stream_id: 0,
            num_bytes,
            fin: false
        })) if num_bytes == expected
    ));
}

fn expect_closed_without_error(helper: &DriverTestHelper) {
    let local_error = helper.local_error().expect("connection should be closing");
    assert!(local_error.is_app, "should be application-level close");
    assert_eq!(local_error.error_code, H3_NO_ERROR);
}

/// An exchange of headers alone does not allocate the body receive buffer on the
/// server either.
#[test]
fn server_body_recv_buf_not_allocated_when_idle() {
    let mut helper = started_server();
    assert!(helper.driver.core.body_buf.room.is_none());

    let stream_id = open_request(&mut helper, "GET", true);
    assert!(helper.driver.core.body_buf.room.is_none());

    // Response headers, followed by an empty body that ends the stream.
    server_send_headers(&mut helper, stream_id);
    helper.work_loop_iter().unwrap();
    server_send_body(&mut helper, stream_id, &[], true);
    helper.advance_and_run_loop().unwrap();

    expect_client_response(&mut helper);
    assert!(helper.driver.core.body_buf.room.is_none());
    assert_eq!(helper.driver.core.stream_count(), 0);
}

#[test]
fn client_fin_before_server_body() {
    let mut helper = started_server();
    let stream_id = open_request(&mut helper, "GET", false);
    server_send_headers(&mut helper, stream_id);

    // The client reads the response and sends a body and its end.
    helper.advance_and_run_loop().unwrap();
    expect_client_response(&mut helper);
    assert_eq!(helper.peer_poll(), None);
    assert_eq!(helper.peer_send_body(0, vec![1; 5], true), Ok(5));
    helper.advance_and_run_loop().unwrap();

    let (body, fin) = server_try_recv_body(&mut helper, stream_id);
    assert_eq!(body, vec![1; 5]);
    assert!(fin);

    server_send_body(&mut helper, stream_id, &[42], true);
    helper.advance_and_run_loop().unwrap();
    assert_eq!(helper.peer_poll(), Some((0, PeerEvent::Data)));
    assert_eq!(helper.peer_poll(), None);
    assert_eq!(helper.peer_recv_body(0), Some(vec![42]));
    assert_eq!(helper.peer_recv_body(0), None);
    assert_eq!(helper.peer_poll(), Some((0, PeerEvent::Finished)));

    assert_eq!(helper.driver.core.stream_count(), 0);
}

#[test]
fn verify_pr_2162() {
    let mut helper = started_server();

    // The client sends a request without an end.
    let stream_id = open_request(&mut helper, "GET", false);
    server_send_headers(&mut helper, stream_id);
    helper.work_loop_iter().unwrap();
    server_send_body(&mut helper, stream_id, &[42], true);
    helper.advance_and_run_loop().unwrap();

    // The client sends a body and its end.
    helper.advance_and_run_loop().unwrap();
    assert_eq!(helper.peer_send_body(0, vec![1; 5], true), Ok(5));
    helper.advance_and_run_loop().unwrap();

    let (body, fin) = server_try_recv_body(&mut helper, stream_id);
    assert_eq!(body, &[1; 5]);
    assert!(fin);
    assert_eq!(helper.driver.core.stream_count(), 0);
}

/// The client refuses the response.
#[test]
fn client_sends_stop_sending() {
    let mut helper = started_server();
    let stream_id = open_request(&mut helper, "GET", false);
    server_send_headers(&mut helper, stream_id);

    helper.advance_and_run_loop().unwrap();
    expect_client_response(&mut helper);
    assert_eq!(helper.peer_poll(), None);
    helper.peer_shutdown_read(0, 4242);
    helper.advance_and_run_loop().unwrap();

    // The client sent nothing more.
    assert!(matches!(helper.app_recv(stream_id), AppRecv::Empty));
    // A write is needed to learn of the refusal.
    server_send_body(&mut helper, stream_id, &[23; 10], false);
    helper.work_loop_iter().unwrap();
    assert!(!helper.stream(stream_id).unwrap().outbound_open);
    assert_eq!(server_audit(&helper).recvd_stop_sending_error_code, 4242);
    helper.work_loop_iter().unwrap();

    // The other half of the stream goes on until the client ends it.
    helper.peer_send_body(0, vec![1, 2, 3], true).unwrap();
    helper.advance_and_run_loop().unwrap();
    let (body, fin) = server_try_recv_body(&mut helper, stream_id);
    assert_eq!(body, &[1, 2, 3]);
    assert!(fin);

    assert_eq!(helper.driver.core.stream_count(), 0);
    let stats = server_audit(&helper);
    assert_eq!(stats.recvd_stop_sending_error_code, 4242);
    assert_eq!(stats.recvd_reset_stream_error_code, -1);
    assert_eq!(stats.sent_stop_sending_error_code, -1);
    assert_eq!(stats.sent_reset_stream_error_code, -1);
    assert_eq!(stats.recvd_stream_fin, StreamClosureKind::Explicit);
    assert_eq!(stats.sent_stream_fin, StreamClosureKind::NotClosed);
    assert_eq!(stats.downstream_bytes_recvd, 3);
    assert_eq!(stats.downstream_bytes_sent, 0);
}

/// The client resets its direction before the server ends its own.
#[test]
fn client_sends_reset_stream_before_server_fin() {
    let mut helper = started_server();
    let stream_id = open_request(&mut helper, "GET", false);
    server_send_headers(&mut helper, stream_id);

    helper.advance_and_run_loop().unwrap();
    expect_client_response(&mut helper);
    assert_eq!(helper.peer_poll(), None);
    helper.peer_shutdown_write(0, 4242);
    helper.advance_and_run_loop().unwrap();

    // The channel is closed because of the reset.
    assert!(!helper.stream(stream_id).unwrap().inbound_open);
    assert_eq!(server_audit(&helper).recvd_reset_stream_error_code, 4242);
    assert!(matches!(
        helper.recv_event(),
        Some(DriverEvent::Core(H3Event::ResetStream { stream_id: 0 }))
    ));

    // The server can still write, and must end its direction.
    server_send_body(&mut helper, stream_id, &[5; 4], false);
    helper.advance_and_run_loop().unwrap();
    server_send_body(&mut helper, stream_id, &[6; 4], true);
    helper.advance_and_run_loop().unwrap();

    assert_eq!(helper.peer_poll(), Some((0, PeerEvent::Data)));
    assert_eq!(helper.peer_recv_body(0), Some(vec![5, 5, 5, 5, 6, 6, 6, 6]));

    assert_eq!(helper.driver.core.stream_count(), 0);
    let stats = server_audit(&helper);
    assert_eq!(stats.recvd_stop_sending_error_code, -1);
    assert_eq!(stats.recvd_reset_stream_error_code, 4242);
    assert_eq!(stats.sent_reset_stream_error_code, -1);
    assert_eq!(stats.sent_stop_sending_error_code, -1);
    assert_eq!(stats.recvd_stream_fin, StreamClosureKind::NotClosed);
    assert_eq!(stats.sent_stream_fin, StreamClosureKind::Explicit);
    assert_eq!(stats.downstream_bytes_recvd, 0);
    assert_eq!(stats.downstream_bytes_sent, 8);
}

/// The client resets its direction after the server has ended its own.
#[test]
fn client_sends_reset_stream_after_server_fin() {
    let mut helper = started_server();
    let stream_id = open_request(&mut helper, "GET", false);

    server_send_headers(&mut helper, stream_id);
    helper.work_loop_iter().unwrap();
    server_send_body(&mut helper, stream_id, b"foobar 42", true);
    helper.advance_and_run_loop().unwrap();

    expect_client_response(&mut helper);
    assert_eq!(helper.peer_poll(), Some((0, PeerEvent::Data)));
    helper.peer_recv_body(0).unwrap();
    helper.peer_shutdown_write(0, 4242);
    helper.advance_and_run_loop().unwrap();

    assert!(!helper.stream(stream_id).unwrap().inbound_open);
    assert!(matches!(
        helper.recv_event(),
        Some(DriverEvent::Core(H3Event::ResetStream { stream_id: 0 }))
    ));

    assert_eq!(helper.driver.core.stream_count(), 0);
    let stats = server_audit(&helper);
    assert_eq!(stats.recvd_stop_sending_error_code, -1);
    assert_eq!(stats.recvd_reset_stream_error_code, 4242);
    assert_eq!(stats.sent_reset_stream_error_code, -1);
    assert_eq!(stats.sent_stop_sending_error_code, -1);
    assert_eq!(stats.recvd_stream_fin, StreamClosureKind::NotClosed);
    assert_eq!(stats.sent_stream_fin, StreamClosureKind::Explicit);
    assert_eq!(stats.downstream_bytes_recvd, 0);
    assert_eq!(stats.downstream_bytes_sent, b"foobar 42".len() as u64);
}

/// The client resets its direction while the server waits for room to read on.
#[test]
fn client_sends_reset_stream_while_reading_wait_for_data() {
    let mut helper = started_server();
    let stream_id = open_request(&mut helper, "GET", false);

    server_send_headers(&mut helper, stream_id);
    helper.work_loop_iter().unwrap();
    server_send_body(&mut helper, stream_id, &[1, 2, 3, 4], false);
    helper.advance_and_run_loop().unwrap();

    expect_client_response(&mut helper);
    assert_eq!(helper.peer_poll(), Some((0, PeerEvent::Data)));
    assert_eq!(helper.peer_poll(), None);
    // The first half of the body fills the application's channel.
    assert_eq!(helper.peer_send_body(0, vec![1; 5], false), Ok(5));
    helper.advance();
    helper.work_loop_iter().unwrap();

    // The second half has to wait.
    assert_eq!(helper.peer_send_body(0, vec![1; 5], false), Ok(5));
    helper.advance();
    helper.work_loop_iter().unwrap();

    match helper.app_recv(stream_id) {
        AppRecv::Frame(InboundFrame::Body(bytes)) => assert_eq!(bytes, &[1; 5]),
        other => panic!("unexpected frame: {other:?}"),
    }
    expect_body_bytes(&mut helper, 5);
    assert!(helper.recv_event().is_none());

    // The reset drops the half that waited.
    helper.peer_shutdown_write(0, 4242);
    helper.advance();
    helper.driver.core.wait_for_data().unwrap();

    assert!(!helper.stream(stream_id).unwrap().inbound_open);
    assert_eq!(server_audit(&helper).recvd_reset_stream_error_code, 4242);
    assert!(matches!(
        helper.recv_event(),
        Some(DriverEvent::Core(H3Event::ResetStream { stream_id: 0 }))
    ));

    // The server can still write, and must end its direction.
    server_send_body(&mut helper, stream_id, &[6; 4], true);
    helper.advance_and_run_loop().unwrap();

    assert_eq!(helper.peer_recv_body(0), Some(vec![1, 2, 3, 4, 6, 6, 6, 6]));
    assert_eq!(helper.peer_poll(), Some((0, PeerEvent::Finished)));

    assert_eq!(helper.driver.core.stream_count(), 0);
    let stats = server_audit(&helper);
    assert_eq!(stats.recvd_stop_sending_error_code, -1);
    assert_eq!(stats.recvd_reset_stream_error_code, 4242);
    assert_eq!(stats.sent_reset_stream_error_code, -1);
    assert_eq!(stats.sent_stop_sending_error_code, -1);
    assert_eq!(stats.recvd_stream_fin, StreamClosureKind::NotClosed);
    assert_eq!(stats.sent_stream_fin, StreamClosureKind::Explicit);
    assert_eq!(stats.downstream_bytes_recvd, 5);
    assert_eq!(stats.downstream_bytes_sent, 8);
}

/// The client resets its direction while bytes wait to be read.
#[test]
fn server_sends_reset_stream_while_reading_process_reads() {
    let mut helper = started_server();
    let stream_id = open_request(&mut helper, "GET", false);
    server_send_headers(&mut helper, stream_id);
    helper.advance_and_run_loop().unwrap();

    expect_client_response(&mut helper);
    assert_eq!(helper.peer_poll(), None);
    assert_eq!(helper.peer_send_body(0, vec![1; 5], false), Ok(5));

    helper.advance();
    helper.work_loop_iter().unwrap();
    match helper.app_recv(stream_id) {
        AppRecv::Frame(InboundFrame::Body(bytes)) => assert_eq!(bytes, &[1; 5]),
        other => panic!("unexpected frame: {other:?}"),
    }
    expect_body_bytes(&mut helper, 5);

    // Bytes that arrived but were not read are lost with the reset.
    assert_eq!(helper.peer_send_body(0, vec![1; 5], false), Ok(5));
    helper.advance();
    helper.peer_shutdown_write(0, 4242);
    helper.advance_and_run_loop().unwrap();

    assert!(!helper.stream(stream_id).unwrap().inbound_open);
    assert_eq!(server_audit(&helper).recvd_reset_stream_error_code, 4242);
    assert!(matches!(
        helper.recv_event(),
        Some(DriverEvent::Core(H3Event::ResetStream { stream_id: 0 }))
    ));

    server_send_body(&mut helper, stream_id, &[], true);
    helper.advance_and_run_loop().unwrap();

    assert_eq!(helper.peer_recv_body(0), None);
    assert_eq!(helper.peer_poll(), Some((0, PeerEvent::Data)));
    assert_eq!(helper.peer_recv_body(0), None);
    assert_eq!(helper.peer_poll(), Some((0, PeerEvent::Finished)));

    assert_eq!(helper.driver.core.stream_count(), 0);
    let stats = server_audit(&helper);
    assert_eq!(stats.recvd_stop_sending_error_code, -1);
    assert_eq!(stats.recvd_reset_stream_error_code, 4242);
    assert_eq!(stats.sent_reset_stream_error_code, -1);
    assert_eq!(stats.sent_stop_sending_error_code, -1);
    assert_eq!(stats.recvd_stream_fin, StreamClosureKind::NotClosed);
    assert_eq!(stats.sent_stream_fin, StreamClosureKind::Explicit);
    assert_eq!(stats.downstream_bytes_recvd, 5);
    assert_eq!(stats.downstream_bytes_sent, 0);
}

#[test]
fn server_driver_send_stop_sending_after_channel_drop() {
    let mut helper = started_server();
    let stream_id = open_request(&mut helper, "GET", false);
    server_send_headers(&mut helper, stream_id);

    helper.advance_and_run_loop().unwrap();
    expect_client_response(&mut helper);
    assert_eq!(helper.peer_poll(), None);
    assert_eq!(helper.peer_send_body(0, vec![1; 5], false), Ok(5));
    helper.advance_and_run_loop().unwrap();

    let (body, fin) = server_try_recv_body(&mut helper, stream_id);
    assert_eq!(body, vec![1; 5]);
    assert!(!fin);

    // The client sends more, and the application gives its handle up.
    assert_eq!(helper.peer_send_body(0, vec![1; 6], false), Ok(6));
    helper.advance();
    helper.drop_receiver(stream_id);
    helper.advance_and_run_loop().unwrap();

    expect_body_bytes(&mut helper, 5);
    assert!(helper.recv_event().is_none());

    // The client has been told to stop.
    assert_eq!(
        helper.peer_send_body(0, vec![1; 7], false),
        Err(H3_REQUEST_CANCELLED)
    );
    helper.advance_and_run_loop().unwrap();

    server_send_body(&mut helper, stream_id, &[42], true);
    helper.advance_and_run_loop().unwrap();
    assert_eq!(helper.peer_poll(), Some((0, PeerEvent::Data)));
    assert_eq!(helper.peer_poll(), None);
    assert_eq!(helper.peer_recv_body(0), Some(vec![42]));
    assert_eq!(helper.peer_recv_body(0), None);
    assert_eq!(helper.peer_poll(), Some((0, PeerEvent::Finished)));

    let stats = server_audit(&helper);
    assert_eq!(stats.recvd_stop_sending_error_code, -1);
    assert_eq!(stats.recvd_reset_stream_error_code, -1);
    assert_eq!(stats.sent_reset_stream_error_code, -1);
    assert_eq!(stats.sent_stop_sending_error_code, H3_REQUEST_CANCELLED as i64);
    assert_eq!(stats.recvd_stream_fin, StreamClosureKind::NotClosed);
    assert_eq!(stats.sent_stream_fin, StreamClosureKind::Explicit);
    assert_eq!(stats.downstream_bytes_recvd, 5);
    assert_eq!(stats.downstream_bytes_sent, 1);
    assert_eq!(helper.driver.core.stream_count(), 0);
}

/// The client is not told to stop once it has ended its direction.
#[test]
fn server_driver_drop_channel_after_fin() {
    let mut helper = started_server();
    let stream_id = open_request(&mut helper, "GET", false);
    server_send_headers(&mut helper, stream_id);

    helper.advance_and_run_loop().unwrap();
    expect_client_response(&mut helper);
    assert_eq!(helper.peer_poll(), None);
    assert_eq!(helper.peer_send_body(0, vec![1; 5], true), Ok(5));
    helper.advance_and_run_loop().unwrap();

    let (body, fin) = server_try_recv_body(&mut helper, stream_id);
    assert_eq!(body, vec![1; 5]);
    assert!(fin);

    helper.advance_and_run_loop().unwrap();
    helper.drop_receiver(stream_id);
    helper.advance_and_run_loop().unwrap();

    server_send_body(&mut helper, stream_id, &[42], true);
    helper.advance_and_run_loop().unwrap();
    assert_eq!(helper.peer_poll(), Some((0, PeerEvent::Data)));
    assert_eq!(helper.peer_poll(), None);
    assert_eq!(helper.peer_recv_body(0), Some(vec![42]));
    assert_eq!(helper.peer_recv_body(0), None);
    assert_eq!(helper.peer_poll(), Some((0, PeerEvent::Finished)));

    let stats = server_audit(&helper);
    assert_eq!(stats.recvd_stop_sending_error_code, -1);
    assert_eq!(stats.recvd_reset_stream_error_code, -1);
    assert_eq!(stats.sent_reset_stream_error_code, -1);
    assert_eq!(stats.sent_stop_sending_error_code, -1);
    assert_eq!(stats.recvd_stream_fin, StreamClosureKind::Explicit);
    assert_eq!(stats.sent_stream_fin, StreamClosureKind::Explicit);
    assert_eq!(stats.downstream_bytes_recvd, 5);
    assert_eq!(stats.downstream_bytes_sent, 1);
    assert_eq!(helper.driver.core.stream_count(), 0);
}

/// The application gives its handle up before the end of the body could be
/// delivered.
#[test]
fn server_driver_drop_channel_after_fin_2() {
    let mut helper = started_server();
    let stream_id = open_request(&mut helper, "GET", false);
    server_send_headers(&mut helper, stream_id);

    helper.advance_and_run_loop().unwrap();
    expect_client_response(&mut helper);
    assert_eq!(helper.peer_poll(), None);
    assert_eq!(helper.peer_send_body(0, vec![1; 5], false), Ok(5));
    helper.advance_and_run_loop().unwrap();

    assert_eq!(helper.peer_send_body(0, vec![1; 6], true), Ok(6));
    helper.advance_and_run_loop().unwrap();
    helper.drop_receiver(stream_id);
    helper.advance_and_run_loop().unwrap();

    expect_body_bytes(&mut helper, 5);
    assert!(helper.recv_event().is_none());

    server_send_body(&mut helper, stream_id, &[42], true);
    helper.advance_and_run_loop().unwrap();
    assert_eq!(helper.peer_poll(), Some((0, PeerEvent::Data)));
    assert_eq!(helper.peer_poll(), None);
    assert_eq!(helper.peer_recv_body(0), Some(vec![42]));
    assert_eq!(helper.peer_recv_body(0), None);
    assert_eq!(helper.peer_poll(), Some((0, PeerEvent::Finished)));

    let stats = server_audit(&helper);
    assert_eq!(stats.recvd_stop_sending_error_code, -1);
    assert_eq!(stats.recvd_reset_stream_error_code, -1);
    assert_eq!(stats.sent_reset_stream_error_code, -1);
    assert_eq!(stats.sent_stop_sending_error_code, H3_REQUEST_CANCELLED as i64);
    assert_eq!(stats.recvd_stream_fin, StreamClosureKind::NotClosed);
    assert_eq!(stats.sent_stream_fin, StreamClosureKind::Explicit);
    assert_eq!(stats.downstream_bytes_recvd, 5);
    assert_eq!(stats.downstream_bytes_sent, 1);
    assert_eq!(helper.driver.core.stream_count(), 0);
}

#[test]
fn server_send_trailers() {
    let mut helper = started_server();
    let stream_id = open_request(&mut helper, "GET", false);
    server_send_headers(&mut helper, stream_id);

    helper.advance_and_run_loop().unwrap();
    expect_client_response(&mut helper);
    assert_eq!(helper.peer_poll(), None);
    assert_eq!(helper.peer_send_body(0, vec![1; 5], true), Ok(5));
    helper.advance_and_run_loop().unwrap();

    let (body, fin) = server_try_recv_body(&mut helper, stream_id);
    assert_eq!(body, vec![1; 5]);
    assert!(fin);

    server_send_body(&mut helper, stream_id, &[42], false);
    helper.advance_and_run_loop().unwrap();
    assert_eq!(helper.peer_poll(), Some((0, PeerEvent::Data)));
    assert_eq!(helper.peer_recv_body(0), Some(vec![42]));
    assert_eq!(helper.peer_recv_body(0), None);

    server_send(
        &mut helper,
        stream_id,
        OutboundFrame::Trailers(vec![Header::new("x-trailer", "done")]),
    );
    helper.advance_and_run_loop().unwrap();
    expect_client_response(&mut helper);

    assert_eq!(helper.peer_poll(), Some((0, PeerEvent::Finished)));
    assert_eq!(helper.peer_poll(), None);
}

/// Ending the sending direction resets the stream.
#[test]
fn server_shutdown_stream_write_direction() {
    const CUSTOM_ERROR_CODE: u64 = 0x1234;
    let mut helper = started_server();
    let stream_id = open_request(&mut helper, "GET", false);

    assert_eq!(
        helper.driver.shutdown_stream(
            stream_id,
            StreamShutdown::Write {
                error_code: CUSTOM_ERROR_CODE
            }
        ),
        H3CommandAdmission::Accepted
    );
    helper.advance_and_run_loop().unwrap();

    assert_eq!(
        helper.peer_poll(),
        Some((
            0,
            PeerEvent::Reset {
                error_code: CUSTOM_ERROR_CODE
            }
        ))
    );
    let stats = server_audit(&helper);
    assert_eq!(stats.sent_reset_stream_error_code, CUSTOM_ERROR_CODE as i64);
    assert_eq!(stats.sent_stop_sending_error_code, -1);
}

/// Ending the receiving direction refuses the stream.
#[test]
fn server_shutdown_stream_read_direction() {
    const CUSTOM_ERROR_CODE: u64 = 0x5678;
    let mut helper = started_server();
    let stream_id = open_request(&mut helper, "POST", false);

    helper.driver.shutdown_stream(
        stream_id,
        StreamShutdown::Read {
            error_code: CUSTOM_ERROR_CODE,
        },
    );
    helper.advance_and_run_loop().unwrap();

    assert_eq!(
        helper.peer_send_body(0, vec![1, 2, 3], false),
        Err(CUSTOM_ERROR_CODE)
    );
    let stats = server_audit(&helper);
    assert_eq!(stats.sent_reset_stream_error_code, -1);
    assert_eq!(stats.sent_stop_sending_error_code, CUSTOM_ERROR_CODE as i64);
}

/// Ending both directions does both.
#[test]
fn server_shutdown_stream_both_directions() {
    const READ_ERROR_CODE: u64 = 0xAAAA;
    const WRITE_ERROR_CODE: u64 = 0xBBBB;
    let mut helper = started_server();
    let stream_id = open_request(&mut helper, "POST", false);

    helper.driver.shutdown_stream(
        stream_id,
        StreamShutdown::Both {
            read_error_code: READ_ERROR_CODE,
            write_error_code: WRITE_ERROR_CODE,
        },
    );
    helper.advance_and_run_loop().unwrap();

    assert_eq!(
        helper.peer_send_body(0, vec![1, 2, 3], false),
        Err(READ_ERROR_CODE)
    );
    assert_eq!(
        helper.peer_poll(),
        Some((
            0,
            PeerEvent::Reset {
                error_code: WRITE_ERROR_CODE
            }
        ))
    );
    let stats = server_audit(&helper);
    assert_eq!(stats.sent_reset_stream_error_code, WRITE_ERROR_CODE as i64);
    assert_eq!(stats.sent_stop_sending_error_code, READ_ERROR_CODE as i64);
}

/// A GOAWAY of the client does not affect responses that are under way.
#[test]
fn server_receiving_goaway_keeps_connection_intact() {
    let mut helper = started_server();
    let stream_id = open_request(&mut helper, "GET", true);
    assert_eq!(stream_id, 0);
    server_send_headers(&mut helper, stream_id);
    helper.advance_and_run_loop().unwrap();
    expect_client_response(&mut helper);

    server_send_body(&mut helper, stream_id, &[1; 10], false);
    helper.advance_and_run_loop().unwrap();
    assert_eq!(helper.peer_poll(), Some((0, PeerEvent::Data)));
    assert_eq!(helper.peer_recv_body(0), Some(vec![1; 10]));

    helper.peer_send_goaway(0);
    helper.advance_and_run_loop().unwrap();

    loop {
        match helper.recv_event() {
            Some(DriverEvent::Core(H3Event::GoAway { id })) => {
                assert_eq!(id, 0);
                break;
            }
            Some(DriverEvent::Core(H3Event::BodyBytesReceived { .. })) => continue,
            Some(DriverEvent::Core(H3Event::StreamClosed { .. })) => continue,
            other => panic!("unexpected event: {other:?}"),
        }
    }

    server_send_body(&mut helper, stream_id, &[2; 10], false);
    helper.advance_and_run_loop().unwrap();
    assert_eq!(helper.peer_poll(), Some((0, PeerEvent::Data)));
    assert_eq!(helper.peer_recv_body(0), Some(vec![2; 10]));

    server_send_body(&mut helper, stream_id, &[3; 10], true);
    helper.advance_and_run_loop().unwrap();
    assert_eq!(helper.peer_poll(), Some((0, PeerEvent::Data)));
    assert_eq!(helper.peer_recv_body(0), Some(vec![3; 10]));
    assert_eq!(helper.peer_poll(), Some((0, PeerEvent::Finished)));
}

/// Without streams and flows, the connection closes when the application goes.
#[test]
fn h3_controller_drop_closes_connection_when_maps_empty() {
    let mut helper = DriverTestHelper::new(Role::Server);
    helper.complete_handshake();

    assert_eq!(helper.driver.core.stream_count(), 0);
    assert_eq!(helper.driver.core.flows.len(), 0);
    assert!(helper.local_error().is_none());

    helper.drop_event_receiver();
    helper.driver.core.wait_for_data().unwrap();
    expect_closed_without_error(&helper);
}

/// With streams and flows, it stays.
#[test]
fn h3_controller_drop_keeps_connection_alive_when_streams_exist() {
    let mut helper = DriverTestHelper::with_pipe_and_http3_settings(
        Role::Server,
        DriverPipe::with_config(default_quiche_config()),
        Http3Settings {
            enable_extended_connect: true,
            ..Default::default()
        },
    );
    helper.complete_handshake();
    helper.advance_and_run_loop().unwrap();

    helper
        .peer_client_send_request(flow_request_headers(), false)
        .unwrap();
    helper.advance_and_run_loop().unwrap();
    assert!(matches!(
        helper.recv_event(),
        Some(DriverEvent::Core(H3Event::NewFlow { .. }))
    ));
    assert!(matches!(
        helper.recv_event(),
        Some(DriverEvent::Headers { .. })
    ));
    assert_eq!(helper.driver.core.stream_count(), 1);
    assert_eq!(helper.driver.core.flows.len(), 1);

    helper.drop_event_receiver();
    helper.driver.core.wait_for_data().unwrap();
    assert!(helper.local_error().is_none());
}

/// A CONNECT request with `:protocol` opens no flow where extended CONNECT is
/// not offered.
#[test]
fn protocol_without_extended_connect_closes_on_controller_drop() {
    let mut helper = started_server();

    let connect_headers = vec![
        Header::new(":method", "CONNECT"),
        Header::new(":scheme", "https"),
        Header::new(":authority", "quic.tech"),
        Header::new(":path", "/"),
        Header::new(":protocol", "webtransport"),
    ];
    let stream_id = helper
        .peer_client_send_request(connect_headers, true)
        .unwrap();
    helper.advance_and_run_loop().unwrap();
    assert!(matches!(
        helper.recv_event(),
        Some(DriverEvent::Headers { .. })
    ));
    assert_eq!(helper.driver.core.stream_count(), 1);
    assert_eq!(helper.driver.core.flows.len(), 0);

    // The application goes, and its handles of the stream with it.
    helper.drop_sender(stream_id);
    helper.drop_receiver(stream_id);
    helper.drop_event_receiver();
    helper.driver.core.wait_for_data().unwrap();
    helper.driver.core.wait_for_data().unwrap();
    expect_closed_without_error(&helper);
}

/// The application goes while a stream is open; the connection closes with the
/// stream.
#[test]
fn controller_drop_then_stream_close_triggers_connection_close() {
    let mut helper = started_server();
    let stream_id = open_request(&mut helper, "GET", false);
    server_send_headers(&mut helper, stream_id);
    helper.advance_and_run_loop().unwrap();
    server_send_body(&mut helper, stream_id, b"ok", true);
    helper.advance_and_run_loop().unwrap();
    assert_eq!(helper.driver.core.stream_count(), 1);

    helper.drop_sender(stream_id);
    helper.drop_receiver(stream_id);

    helper.advance_and_run_loop().unwrap();
    expect_client_response(&mut helper);
    assert_eq!(helper.peer_poll(), Some((0, PeerEvent::Data)));
    assert_eq!(helper.peer_recv_body(0), Some(vec![111, 107]));
    assert_eq!(helper.peer_poll(), Some((0, PeerEvent::Finished)));

    helper.drop_event_receiver();
    helper.driver.core.wait_for_data().unwrap();
    assert!(helper.local_error().is_none());

    assert_eq!(helper.peer_send_body(0, b"done".to_vec(), true), Ok(4));
    helper.advance();
    helper.driver.core.process_reads().unwrap();
    helper.driver.core.process_writes().unwrap();
    helper.driver.core.wait_for_data().unwrap();

    assert_eq!(helper.driver.core.stream_count(), 0);
    expect_closed_without_error(&helper);
}

/// The application goes while a flow without a stream is open; the connection
/// closes with the flow.
#[test]
fn controller_drop_then_autonomous_flow_shutdown_triggers_connection_close() {
    let mut config = default_quiche_config();
    config.enable_dgram(true, 100, 100);
    let mut helper = DriverTestHelper::with_pipe_and_http3_settings(
        Role::Server,
        DriverPipe::with_config(config),
        Http3Settings {
            enable_extended_connect: true,
            ..Default::default()
        },
    );
    helper.complete_handshake();
    helper.advance_and_run_loop().unwrap();

    // A datagram of a flow that no request opened.
    let flow_id: u64 = 8;
    helper.peer_dgram_send(encode_datagram(flow_id, b"hi"));
    helper.advance_and_run_loop().unwrap();
    assert!(matches!(
        helper.recv_event(),
        Some(DriverEvent::Core(H3Event::NewFlow { flow_id: 8 }))
    ));
    assert_eq!(helper.driver.core.stream_count(), 0);
    assert_eq!(helper.driver.core.flows.len(), 1);

    helper.drop_event_receiver();
    helper.driver.core.wait_for_data().unwrap();
    assert!(helper.local_error().is_none());

    assert!(helper.driver.core.send_on_flow(FlowFrame::Shutdown {
        flow_id,
        stream_id: flow_id,
    }));
    helper.driver.core.wait_for_data().unwrap();
    assert_eq!(helper.driver.core.stream_count(), 0);
    assert_eq!(helper.driver.core.flows.len(), 0);

    helper.driver.core.wait_for_data().unwrap();
    expect_closed_without_error(&helper);
}

/// Datagrams are dropped and open no flow where extended CONNECT is not offered.
#[test]
fn process_dgram_skips_flow_creation_when_extended_connect_disabled() {
    let mut config = default_quiche_config();
    config.enable_dgram(true, 100, 100);
    let mut helper = DriverTestHelper::with_pipe_and_http3_settings(
        Role::Server,
        DriverPipe::with_config(config),
        Http3Settings::default(),
    );
    helper.complete_handshake();
    helper.advance_and_run_loop().unwrap();

    helper.peer_dgram_send(encode_datagram(8, b"hi"));
    helper.advance_and_run_loop().unwrap();

    assert_eq!(helper.driver.core.flows.len(), 0);
}
