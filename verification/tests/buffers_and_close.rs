use h3_driver::body_buf::{body_recv_buf_size, MAX_BUF_SIZE, MIN_BODY_RECV_BUF_SIZE};
use h3_driver::conn_close::{CloseMetrics, H3ConnectionError};
use h3_driver::driver::commands::{H3CommandAdmission, WebTransportSessionCloseError};
use h3_driver::driver::flows::StreamShutdown;
use h3_driver::driver::helper::DriverTestHelper;
use h3_driver::server_side_driver::{webtransport_helper, webtransport_settings};
use h3_driver::transport::Role;

#[test]
fn zero_readable_uses_floor() {
    // Never build a zero-capacity buffer.
    assert_eq!(body_recv_buf_size(0), MIN_BODY_RECV_BUF_SIZE);
}

#[test]
fn small_readable_uses_floor() {
    // A read below the floor is raised to the floor.
    assert_eq!(body_recv_buf_size(10), MIN_BODY_RECV_BUF_SIZE);
    assert_eq!(body_recv_buf_size(MIN_BODY_RECV_BUF_SIZE), MIN_BODY_RECV_BUF_SIZE);
}

#[test]
fn readable_above_floor_tracks_size() {
    let readable = MIN_BODY_RECV_BUF_SIZE + 500;
    assert_eq!(body_recv_buf_size(readable), readable);
}

#[test]
fn large_readable_caps_at_max() {
    assert_eq!(body_recv_buf_size(MAX_BUF_SIZE), MAX_BUF_SIZE);
    // Readable beyond the maximum is capped.
    assert_eq!(body_recv_buf_size(MAX_BUF_SIZE + 1), MAX_BUF_SIZE);
    assert_eq!(body_recv_buf_size(10 * MAX_BUF_SIZE), MAX_BUF_SIZE);
}

/// The peer closes on the transport's level and the driver's turns end well.
#[test]
fn peer_quic_error_on_ok_result() {
    let mut helper = DriverTestHelper::new(Role::Server);
    helper.complete_handshake();

    helper.driver.core.transport.peer_close(false, 0x1);
    helper.advance();

    let mut metrics = CloseMetrics::new();
    helper.driver.on_conn_close(&mut metrics, Ok(()));

    assert_eq!(metrics.peer_quic, 1);
    assert_eq!(metrics.peer_h3, 0);
    assert_eq!(metrics.local_quic, 0);
    assert_eq!(metrics.local_h3, 0);
}

/// The peer's application closes and the driver's turns end well.
#[test]
fn peer_h3_error_on_ok_result() {
    let mut helper = DriverTestHelper::new(Role::Server);
    helper.complete_handshake();

    helper.driver.core.transport.peer_close(true, 0x100);
    helper.advance();

    let mut metrics = CloseMetrics::new();
    helper.driver.on_conn_close(&mut metrics, Ok(()));

    assert_eq!(metrics.peer_h3, 1);
    assert_eq!(metrics.peer_quic, 0);
    assert_eq!(metrics.local_quic, 0);
    assert_eq!(metrics.local_h3, 0);
}

/// This end closes on the transport's level and the driver's turns fail.
#[test]
fn local_quic_error_on_err_result() {
    let mut helper = DriverTestHelper::new(Role::Server);
    helper.complete_handshake();

    helper.driver.core.transport.close(false, 0x1);

    let mut metrics = CloseMetrics::new();
    helper
        .driver
        .on_conn_close(&mut metrics, Err(H3ConnectionError::PostAcceptTimeout));

    assert_eq!(metrics.local_quic, 1);
    assert_eq!(metrics.local_h3, 0);
    assert_eq!(metrics.peer_quic, 0);
    assert_eq!(metrics.peer_h3, 0);
}

#[test]
fn webtransport_h3_command_lane_reports_capacity_and_returns_close() {
    let mut settings = webtransport_settings();
    settings.command_capacity = 1;
    let mut helper = webtransport_helper(settings);

    assert_eq!(helper.driver.send_goaway(), H3CommandAdmission::Accepted);
    assert_eq!(
        helper
            .driver
            .shutdown_stream(4, StreamShutdown::Write { error_code: 7 }),
        H3CommandAdmission::QueueFull
    );

    let message = "queue-full close".to_string();
    match helper
        .driver
        .close_webtransport_session(0, 9, message.clone())
    {
        Err(WebTransportSessionCloseError::QueueFull {
            session_id,
            error_code,
            message: returned,
        }) => {
            assert_eq!(session_id, 0);
            assert_eq!(error_code, 9);
            assert_eq!(returned, message);
        }
        other => panic!("unexpected admission: {other:?}"),
    }

    helper.driver.shut_down();
    match helper
        .driver
        .close_webtransport_session(0, 9, message.clone())
    {
        Err(WebTransportSessionCloseError::DriverGone {
            session_id,
            error_code,
            message: returned,
        }) => {
            assert_eq!(session_id, 0);
            assert_eq!(error_code, 9);
            assert_eq!(returned, message);
        }
        other => panic!("unexpected admission: {other:?}"),
    }
    assert_eq!(helper.driver.send_goaway(), H3CommandAdmission::DriverGone);
}
