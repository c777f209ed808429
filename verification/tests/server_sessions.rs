use h3_driver::conn_close::{
    CloseMetrics, H3ConnectionError, H3_EXCESSIVE_LOAD, H3_MESSAGE_ERROR, H3_REQUEST_REJECTED,
};
use h3_driver::driver::events::{DriverEvent, H3Event, H3EventQueueStats};
use h3_driver::driver::helper::DriverTestHelper;
use h3_driver::driver::state::FlowFrame;
use h3_driver::headers::{make_request_headers, Header};
use h3_driver::peer_log::{PeerEvent, RawRead};
use h3_driver::request_stream::{AppRecv, FrameAdmission, OutboundFrame};
use h3_driver::server_side_driver::{
    accept_pending_webtransport_session, accept_webtransport_session, assert_client_no_raw_h3_dgram,
    assert_client_raw_h3_dgram, assert_no_driver_event, assert_no_webtransport_session_event,
    backpressured_webtransport_pipe, dgram_enabled_pipe, encode_varint, expect_associated_stream,
    expect_session_accepted, expect_session_pending, expect_session_rejected,
    expect_session_terminated, make_webtransport_request_headers, multicast_ack,
    open_datagram_flow, open_pending_webtransport_session, send_response_status,
    start_webtransport_driver, webtransport_close_capsule, webtransport_helper,
    webtransport_multicast_settings, webtransport_retention_stats, webtransport_settings,
    webtransport_stream_data,
};
use h3_driver::settings::Http3Settings;
use h3_driver::transport::Role;
use h3_driver::wire::capsule::WT_CLOSE_SESSION;
use h3_driver::wire::stream_prefix::{
    WebTransportStreamDirection, WEBTRANSPORT_BIDI_STREAM_TYPE, WEBTRANSPORT_UNI_STREAM_TYPE,
};
use h3_driver::wt::runtime::WebTransportRuntime;
use h3_driver::wt::types::{
    WebTransportSessionCloseReason, WebTransportSessionEvent, WT_BUFFERED_STREAM_REJECTED,
    WT_SESSION_GONE,
};
use h3_driver::driver::commands::WebTransportSessionCloseError;

fn runtime(helper: &DriverTestHelper) -> &WebTransportRuntime {
    helper.driver.core.session.as_ref().unwrap()
}

fn app_send_frame(helper: &mut DriverTestHelper, stream_id: u64, frame: OutboundFrame) {
    assert!(matches!(
        helper.app_send(stream_id, frame),
        FrameAdmission::Accepted
    ));
}

fn app_has_nothing(helper: &mut DriverTestHelper, stream_id: u64) -> bool {
    matches!(helper.app_recv(stream_id), AppRecv::Empty)
}

fn reset_event(error_code: u64) -> PeerEvent {
    PeerEvent::Reset { error_code }
}

#[test]
fn webtransport_connect_creates_pending_session() {
    let mut helper = webtransport_helper(webtransport_settings());
    helper.complete_handshake();
    helper.advance_and_run_loop().unwrap();

    let stream_id = helper
        .peer_client_send_request(make_webtransport_request_headers(), false)
        .unwrap();
    helper.advance_and_run_loop().unwrap();

    assert!(expect_session_pending(&mut helper, stream_id));
}

#[test]
fn webtransport_request_waits_for_client_settings_before_app_admission() {
    let mut helper = webtransport_helper(webtransport_settings());
    helper.driver.core.on_conn_established();
    assert!(helper.driver.core.peer_webtransport.is_none());

    helper
        .driver
        .core
        .headers_received(0, make_webtransport_request_headers(), false);
    assert!(helper.driver.core.deferred.is_some());
    assert!(runtime(&helper).is_pending(0));
    assert!(assert_no_driver_event(&mut helper));

    helper.advance();
    helper.driver.core.process_reads().unwrap();
    assert!(matches!(
        helper.recv_event(),
        Some(DriverEvent::Core(H3Event::IncomingSettings))
    ));
    assert!(expect_session_pending(&mut helper, 0));
    assert!(matches!(
        helper.recv_event(),
        Some(DriverEvent::Headers { stream_id: 0, .. })
    ));
    assert!(helper.driver.core.deferred.is_none());
}

#[test]
fn webtransport_response_header_flush_accepts_session() {
    let mut helper = webtransport_helper(webtransport_settings());
    assert_eq!(accept_webtransport_session(&mut helper), Some(0));
}

#[test]
fn webtransport_never_polled_event_lane_fails_with_excessive_load() {
    let mut settings = webtransport_settings();
    settings.event_capacity = 1;
    let mut helper = webtransport_helper(settings);
    start_webtransport_driver(&mut helper).unwrap();

    helper
        .peer_client_send_request(make_webtransport_request_headers(), false)
        .unwrap();
    helper.advance();

    assert_eq!(
        helper.driver.core.process_reads(),
        Err(H3ConnectionError::EventQueueOverloaded)
    );
    assert_eq!(
        helper.driver.core.events.stats(),
        H3EventQueueStats {
            capacity: 1,
            admitted_total: 1,
            overload_total: 1,
            receiver_closed_total: 0,
            overloaded: true,
        }
    );
    assert!(matches!(
        helper.recv_event(),
        Some(DriverEvent::Core(H3Event::WebTransportSession(
            WebTransportSessionEvent::Pending { session_id: 0 }
        )))
    ));

    assert_eq!(
        helper.driver.core.wait_for_data(),
        Err(H3ConnectionError::EventQueueOverloaded)
    );

    let mut metrics = CloseMetrics::new();
    helper
        .driver
        .on_conn_close(&mut metrics, Err(H3ConnectionError::EventQueueOverloaded));
    let local_error = helper.local_error().unwrap();
    assert!(local_error.is_app);
    assert_eq!(local_error.error_code, H3_EXCESSIVE_LOAD);
}

#[test]
fn webtransport_closed_event_receiver_is_not_reported_as_overload() {
    let mut settings = webtransport_settings();
    settings.event_capacity = 1;
    let mut helper = webtransport_helper(settings);
    start_webtransport_driver(&mut helper).unwrap();
    helper.drop_event_receiver();

    helper
        .peer_client_send_request(make_webtransport_request_headers(), false)
        .unwrap();
    helper.advance();
    assert_eq!(
        helper.driver.core.process_reads(),
        Err(H3ConnectionError::ControllerWentAway)
    );
    assert_eq!(
        helper.driver.core.events.stats(),
        H3EventQueueStats {
            capacity: 1,
            admitted_total: 0,
            overload_total: 0,
            receiver_closed_total: 1,
            overloaded: false,
        }
    );
}

#[test]
fn h3_datagram_multicast_channel_uses_quic_fallback_state() {
    let channel_id = vec![1, 2, 3, 4];
    let mut helper = DriverTestHelper::with_pipe_and_http3_settings(
        Role::Server,
        dgram_enabled_pipe(),
        webtransport_multicast_settings(channel_id.clone()),
    );
    let flow_id = open_datagram_flow(&mut helper).unwrap();

    assert!(helper.driver.core.send_on_flow(FlowFrame::Datagram {
        flow_id,
        payload: b"fallback".to_vec(),
    }));
    helper.work_loop_iter().unwrap();
    helper.advance();
    assert!(assert_client_raw_h3_dgram(&mut helper, 0, b"fallback"));

    helper
        .driver
        .core
        .multicast
        .process_ack(multicast_ack(&channel_id));

    assert!(helper.driver.core.send_on_flow(FlowFrame::Datagram {
        flow_id,
        payload: b"multicast-green".to_vec(),
    }));
    helper.work_loop_iter().unwrap();
    helper.advance();
    assert!(assert_client_no_raw_h3_dgram(&mut helper));
}

#[test]
fn h3_datagram_uses_quic_default_multicast_channel() {
    let channel_id = vec![1, 2, 3, 4];
    let mut helper = DriverTestHelper::with_pipe_and_http3_settings(
        Role::Server,
        dgram_enabled_pipe(),
        Http3Settings {
            enable_extended_connect: true,
            ..Default::default()
        },
    );
    let flow_id = open_datagram_flow(&mut helper).unwrap();

    helper
        .driver
        .core
        .multicast
        .set_default(Some(channel_id.clone()));

    assert!(helper.driver.core.send_on_flow(FlowFrame::Datagram {
        flow_id,
        payload: b"default-fallback".to_vec(),
    }));
    helper.work_loop_iter().unwrap();
    helper.advance();
    assert!(assert_client_raw_h3_dgram(&mut helper, 0, b"default-fallback"));

    helper
        .driver
        .core
        .multicast
        .process_ack(multicast_ack(&channel_id));

    assert!(helper.driver.core.send_on_flow(FlowFrame::Datagram {
        flow_id,
        payload: b"after-ack".to_vec(),
    }));
    helper.work_loop_iter().unwrap();
    helper.advance();
    assert!(assert_client_no_raw_h3_dgram(&mut helper));
}

#[test]
fn webtransport_bidi_prefix_transfers_native_stream_ownership_once() {
    let mut helper = webtransport_helper(webtransport_settings());
    accept_webtransport_session(&mut helper).unwrap();

    let payload = b"quicast setup";
    let data = webtransport_stream_data(WEBTRANSPORT_BIDI_STREAM_TYPE, 0, payload);
    helper.peer_stream_send(4, data.clone(), true).unwrap();
    helper.advance_and_run_loop().unwrap();

    let prefix_len = data.len() - payload.len();
    assert!(expect_associated_stream(
        &mut helper,
        0,
        4,
        WebTransportStreamDirection::Bidi,
        prefix_len,
    ));
    assert!(assert_no_driver_event(&mut helper));

    let (received, fin) = helper.stream_recv(4);
    assert_eq!(received, payload);
    assert!(fin);
}

#[test]
fn webtransport_uni_prefix_transfers_native_stream_ownership_once() {
    let mut helper = webtransport_helper(webtransport_settings());
    accept_webtransport_session(&mut helper).unwrap();

    let payload = b"uni setup";
    let data = webtransport_stream_data(WEBTRANSPORT_UNI_STREAM_TYPE, 0, payload);
    helper.peer_stream_send(18, data.clone(), true).unwrap();
    helper.advance_and_run_loop().unwrap();

    let prefix_len = data.len() - payload.len();
    assert!(expect_associated_stream(
        &mut helper,
        0,
        18,
        WebTransportStreamDirection::Uni,
        prefix_len,
    ));
    assert!(assert_no_driver_event(&mut helper));

    let (received, fin) = helper.stream_recv(18);
    assert_eq!(received, payload);
    assert!(fin);
}

#[test]
fn webtransport_future_session_metadata_is_bounded_and_released_on_fin() {
    let mut helper = webtransport_helper(webtransport_settings());
    accept_webtransport_session(&mut helper).unwrap();

    let data = webtransport_stream_data(WEBTRANSPORT_BIDI_STREAM_TYPE, 99, b"not this session");
    helper.peer_stream_send(4, data, true).unwrap();
    helper.advance_and_run_loop().unwrap();

    assert!(assert_no_driver_event(&mut helper));
    assert_eq!(runtime(&helper).pending_stream_count(), 0);
}

#[test]
fn webtransport_fin_before_full_prefix_never_transfers_ownership() {
    let mut helper = webtransport_helper(webtransport_settings());
    accept_webtransport_session(&mut helper).unwrap();

    helper.peer_stream_send(4, vec![0x40], true).unwrap();
    helper.advance_and_run_loop().unwrap();

    assert!(assert_no_driver_event(&mut helper));
    assert!(!runtime(&helper).owns_stream(4));
}

#[test]
fn webtransport_informational_response_does_not_admit_before_final_2xx() {
    let mut helper = webtransport_helper(webtransport_settings());
    start_webtransport_driver(&mut helper).unwrap();
    let stream_id = open_pending_webtransport_session(&mut helper).unwrap();

    app_send_frame(
        &mut helper,
        stream_id,
        OutboundFrame::Headers(vec![
            Header::new(":status", "103"),
            Header::with_value("x-fill", vec![b'x'; 40]),
        ]),
    );
    helper.advance_and_run_loop().unwrap();
    assert!(assert_no_driver_event(&mut helper));
    assert!(!runtime(&helper).is_active(stream_id));
    assert_eq!(helper.peer_poll(), Some((stream_id, PeerEvent::Headers)));

    assert!(accept_pending_webtransport_session(&mut helper, stream_id));
}

#[test]
fn webtransport_retryable_response_backpressure_does_not_admit_early() {
    let mut helper = DriverTestHelper::with_pipe_and_http3_settings(
        Role::Server,
        backpressured_webtransport_pipe(),
        webtransport_settings(),
    );
    start_webtransport_driver(&mut helper).unwrap();
    let stream_id = open_pending_webtransport_session(&mut helper).unwrap();

    assert!(send_response_status(&mut helper, stream_id, 103));
    helper.work_loop_iter().unwrap();
    assert!(assert_no_driver_event(&mut helper));

    assert!(send_response_status(&mut helper, stream_id, 200));
    helper.work_loop_iter().unwrap();
    assert!(assert_no_driver_event(&mut helper));
    assert!(runtime(&helper).is_pending(stream_id));
    assert!(helper.stream(stream_id).unwrap().queued.is_some());

    helper.advance();
    assert_eq!(helper.peer_poll(), Some((stream_id, PeerEvent::Headers)));
    helper.advance_and_run_loop().unwrap();
    assert!(expect_session_accepted(&mut helper, stream_id));
    assert_eq!(helper.peer_poll(), Some((stream_id, PeerEvent::Headers)));
}

#[test]
fn webtransport_non_successful_final_response_rejects_session() {
    let mut helper = webtransport_helper(webtransport_settings());
    start_webtransport_driver(&mut helper).unwrap();
    let stream_id = open_pending_webtransport_session(&mut helper).unwrap();

    assert!(send_response_status(&mut helper, stream_id, 404));
    helper.advance_and_run_loop().unwrap();
    assert!(expect_session_rejected(&mut helper, stream_id, 404));
    assert_eq!(helper.peer_poll(), Some((stream_id, PeerEvent::Headers)));

    let data = webtransport_stream_data(WEBTRANSPORT_BIDI_STREAM_TYPE, stream_id, b"late");
    helper.peer_stream_send(4, data, false).unwrap();
    helper.advance_and_run_loop().unwrap();
    assert!(assert_no_driver_event(&mut helper));
    assert_eq!(helper.peer_stream_stopped(4), Some(WT_SESSION_GONE));
}

#[test]
fn webtransport_stopped_response_send_never_admits_candidate() {
    let mut helper = webtransport_helper(webtransport_settings());
    start_webtransport_driver(&mut helper).unwrap();
    let stream_id = open_pending_webtransport_session(&mut helper).unwrap();

    helper.peer_shutdown_read(stream_id, 0x42);
    helper.advance();
    assert!(send_response_status(&mut helper, stream_id, 200));
    helper.advance_and_run_loop().unwrap();
    assert!(expect_session_terminated(
        &mut helper,
        stream_id,
        WebTransportSessionCloseReason::ConnectStopped { error_code: 0x42 },
    ));
    assert!(!runtime(&helper).is_active(stream_id));
}

#[test]
fn webtransport_server_rejects_client_without_draft_settings() {
    let mut helper = DriverTestHelper::with_pipe_and_http3_configs(
        Role::Server,
        dgram_enabled_pipe(),
        webtransport_settings(),
        false,
    );
    start_webtransport_driver(&mut helper).unwrap();
    let stream_id = helper
        .peer_client_send_request(make_webtransport_request_headers(), false)
        .unwrap();
    helper.advance_and_run_loop().unwrap();
    assert!(assert_no_driver_event(&mut helper));
    assert_eq!(helper.peer_stream_stopped(stream_id), Some(H3_MESSAGE_ERROR));
    assert_eq!(
        helper.peer_poll(),
        Some((stream_id, reset_event(H3_MESSAGE_ERROR)))
    );
    assert_eq!(runtime(&helper).session_count(), 0);
}

#[test]
fn webtransport_stream_before_connect_is_admitted_after_2xx() {
    let mut helper = webtransport_helper(webtransport_settings());
    start_webtransport_driver(&mut helper).unwrap();

    let payload = b"before connect";
    let data = webtransport_stream_data(WEBTRANSPORT_BIDI_STREAM_TYPE, 0, payload);
    helper.peer_stream_send(4, data.clone(), true).unwrap();
    helper.advance_and_run_loop().unwrap();
    assert!(assert_no_driver_event(&mut helper));

    let stream_id = open_pending_webtransport_session(&mut helper).unwrap();
    assert_eq!(stream_id, 0);
    assert!(accept_pending_webtransport_session(&mut helper, stream_id));
    assert!(expect_associated_stream(
        &mut helper,
        0,
        4,
        WebTransportStreamDirection::Bidi,
        data.len() - payload.len(),
    ));

    let (received, fin) = helper.stream_recv(4);
    assert_eq!(received, payload);
    assert!(fin);
}

#[test]
fn webtransport_optimistic_capsule_is_deferred_until_2xx() {
    let mut helper = webtransport_helper(webtransport_settings());
    start_webtransport_driver(&mut helper).unwrap();
    let stream_id = open_pending_webtransport_session(&mut helper).unwrap();
    let close = webtransport_close_capsule(7, "optimistic");

    helper.peer_send_body(stream_id, close, false).unwrap();
    helper.advance_and_run_loop().unwrap();
    assert!(assert_no_driver_event(&mut helper));
    assert!(app_has_nothing(&mut helper, stream_id));

    assert!(accept_pending_webtransport_session(&mut helper, stream_id));
    assert!(expect_session_terminated(
        &mut helper,
        stream_id,
        WebTransportSessionCloseReason::Peer {
            error_code: 7,
            message: "optimistic".to_string(),
        },
    ));
    assert!(app_has_nothing(&mut helper, stream_id));
    assert_eq!(runtime(&helper).held_bytes(), 0);
}

#[test]
fn webtransport_optimistic_capsule_is_discarded_after_rejection() {
    let mut helper = webtransport_helper(webtransport_settings());
    start_webtransport_driver(&mut helper).unwrap();
    let stream_id = open_pending_webtransport_session(&mut helper).unwrap();
    let close = webtransport_close_capsule(8, "discard me");

    helper.peer_send_body(stream_id, close, false).unwrap();
    helper.advance_and_run_loop().unwrap();
    assert!(assert_no_driver_event(&mut helper));

    assert!(send_response_status(&mut helper, stream_id, 403));
    helper.advance_and_run_loop().unwrap();
    assert!(expect_session_rejected(&mut helper, stream_id, 403));
    assert_eq!(helper.peer_poll(), Some((stream_id, PeerEvent::Headers)));
    assert!(app_has_nothing(&mut helper, stream_id));
    assert_eq!(runtime(&helper).held_bytes(), 0);
    assert!(assert_no_webtransport_session_event(&mut helper));
}

#[test]
fn webtransport_stream_between_connect_and_2xx_waits_for_admission() {
    let mut helper = webtransport_helper(webtransport_settings());
    start_webtransport_driver(&mut helper).unwrap();
    let stream_id = open_pending_webtransport_session(&mut helper).unwrap();

    let payload = b"before response";
    let data = webtransport_stream_data(WEBTRANSPORT_BIDI_STREAM_TYPE, stream_id, payload);
    helper.peer_stream_send(4, data.clone(), true).unwrap();
    helper.advance_and_run_loop().unwrap();
    assert!(assert_no_driver_event(&mut helper));

    assert!(accept_pending_webtransport_session(&mut helper, stream_id));
    assert!(expect_associated_stream(
        &mut helper,
        stream_id,
        4,
        WebTransportStreamDirection::Bidi,
        data.len() - payload.len(),
    ));
}

#[test]
fn webtransport_fragmented_prefix_transfers_ownership_at_every_boundary() {
    let prefix = webtransport_stream_data(WEBTRANSPORT_BIDI_STREAM_TYPE, 0, &[]);
    let payload = b"payload";

    for split in 0..=prefix.len() {
        let mut helper = webtransport_helper(webtransport_settings());
        accept_webtransport_session(&mut helper).unwrap();

        if split != 0 {
            helper
                .peer_stream_send(4, prefix[..split].to_vec(), false)
                .unwrap();
        }
        helper.advance_and_run_loop().unwrap();

        let ownership_already_transferred = split == prefix.len();
        if ownership_already_transferred {
            assert!(expect_associated_stream(
                &mut helper,
                0,
                4,
                WebTransportStreamDirection::Bidi,
                prefix.len(),
            ));
        } else {
            assert!(assert_no_driver_event(&mut helper));
        }

        let mut rest = prefix[split..].to_vec();
        rest.extend_from_slice(payload);
        helper.peer_stream_send(4, rest, true).unwrap();
        helper.advance_and_run_loop().unwrap();
        if !ownership_already_transferred {
            assert!(expect_associated_stream(
                &mut helper,
                0,
                4,
                WebTransportStreamDirection::Bidi,
                prefix.len(),
            ));
        }
        assert!(assert_no_driver_event(&mut helper));

        let (received, fin) = helper.stream_recv(4);
        assert_eq!(received, payload);
        assert!(fin);
    }
}

#[test]
fn webtransport_excessive_session_is_reset_without_app_admission() {
    let mut helper = webtransport_helper(webtransport_settings());
    start_webtransport_driver(&mut helper).unwrap();
    let first_id = open_pending_webtransport_session(&mut helper).unwrap();
    assert_eq!(first_id, 0);

    let excessive_stream = webtransport_stream_data(WEBTRANSPORT_BIDI_STREAM_TYPE, 4, b"excessive");
    helper.peer_stream_send(8, excessive_stream, false).unwrap();
    helper.advance_and_run_loop().unwrap();
    assert!(assert_no_driver_event(&mut helper));

    let second_id = helper
        .peer_client_send_request(make_webtransport_request_headers(), false)
        .unwrap();
    assert_eq!(second_id, 4);
    helper.advance_and_run_loop().unwrap();
    assert!(assert_no_driver_event(&mut helper));
    helper.advance();
    assert_eq!(
        helper.peer_poll(),
        Some((second_id, reset_event(H3_REQUEST_REJECTED)))
    );
    assert_eq!(helper.peer_stream_stopped(8), Some(WT_BUFFERED_STREAM_REJECTED));
    assert_eq!(
        helper.peer_poll(),
        Some((8, reset_event(WT_BUFFERED_STREAM_REJECTED)))
    );

    assert!(accept_pending_webtransport_session(&mut helper, first_id));
    assert!(runtime(&helper).is_active(first_id));

    let later = webtransport_stream_data(WEBTRANSPORT_BIDI_STREAM_TYPE, first_id, b"still active");
    helper.peer_stream_send(12, later.clone(), true).unwrap();
    helper.advance_and_run_loop().unwrap();
    assert!(expect_associated_stream(
        &mut helper,
        first_id,
        12,
        WebTransportStreamDirection::Bidi,
        later.len() - b"still active".len(),
    ));
}

#[test]
fn webtransport_fin_before_admission_is_terminal() {
    let mut helper = webtransport_helper(webtransport_settings());
    start_webtransport_driver(&mut helper).unwrap();
    let stream_id = helper
        .peer_client_send_request(make_webtransport_request_headers(), true)
        .unwrap();
    helper.advance_and_run_loop().unwrap();

    assert!(expect_session_pending(&mut helper, stream_id));
    assert!(expect_session_terminated(
        &mut helper,
        stream_id,
        WebTransportSessionCloseReason::Clean,
    ));
    assert!(matches!(
        helper.recv_event(),
        Some(DriverEvent::Headers { .. })
    ));
}

#[test]
fn webtransport_reset_before_admission_is_terminal() {
    let mut helper = webtransport_helper(webtransport_settings());
    start_webtransport_driver(&mut helper).unwrap();
    let stream_id = open_pending_webtransport_session(&mut helper).unwrap();

    helper.peer_shutdown_write(stream_id, 0x51);
    helper.advance_and_run_loop().unwrap();
    assert!(expect_session_terminated(
        &mut helper,
        stream_id,
        WebTransportSessionCloseReason::ConnectReset { error_code: 0x51 },
    ));
}

#[test]
fn webtransport_reset_after_admission_terminates_only_that_session() {
    let mut helper = webtransport_helper(webtransport_settings());
    accept_webtransport_session(&mut helper).unwrap();

    helper.peer_shutdown_write(0, 0x52);
    helper.advance_and_run_loop().unwrap();
    assert!(expect_session_terminated(
        &mut helper,
        0,
        WebTransportSessionCloseReason::ConnectReset { error_code: 0x52 },
    ));
}

#[test]
fn webtransport_stop_after_admission_is_terminal() {
    let mut helper = webtransport_helper(webtransport_settings());
    accept_webtransport_session(&mut helper).unwrap();

    helper.peer_shutdown_read(0, 0x53);
    helper.advance();
    app_send_frame(
        &mut helper,
        0,
        OutboundFrame::Body(b"trigger".to_vec(), false),
    );
    helper.advance_and_run_loop().unwrap();
    assert!(expect_session_terminated(
        &mut helper,
        0,
        WebTransportSessionCloseReason::ConnectStopped { error_code: 0x53 },
    ));
}

#[test]
fn webtransport_fin_after_admission_is_clean_terminal() {
    let mut helper = webtransport_helper(webtransport_settings());
    accept_webtransport_session(&mut helper).unwrap();

    helper.peer_send_body(0, Vec::new(), true).unwrap();
    helper.advance_and_run_loop().unwrap();
    assert!(expect_session_terminated(
        &mut helper,
        0,
        WebTransportSessionCloseReason::Clean,
    ));
}

#[test]
fn webtransport_termination_resets_associated_streams_only() {
    let mut helper = webtransport_helper(webtransport_settings());
    accept_webtransport_session(&mut helper).unwrap();
    let associated = webtransport_stream_data(WEBTRANSPORT_BIDI_STREAM_TYPE, 0, b"open");
    helper
        .peer_stream_send(4, associated.clone(), false)
        .unwrap();
    helper.advance_and_run_loop().unwrap();
    assert!(expect_associated_stream(
        &mut helper,
        0,
        4,
        WebTransportStreamDirection::Bidi,
        associated.len() - b"open".len(),
    ));

    let close = webtransport_close_capsule(2, "close session");
    helper.peer_send_body(0, close, true).unwrap();
    helper.advance_and_run_loop().unwrap();
    assert!(expect_session_terminated(
        &mut helper,
        0,
        WebTransportSessionCloseReason::Peer {
            error_code: 2,
            message: "close session".to_string(),
        },
    ));
    assert_eq!(helper.peer_stream_stopped(4), Some(WT_SESSION_GONE));
    assert!(helper.local_error().is_none());
}

#[test]
fn webtransport_closed_session_cleans_metadata_and_cannot_resurrect() {
    let mut helper = webtransport_helper(webtransport_settings());
    accept_webtransport_session(&mut helper).unwrap();

    helper.peer_send_body(0, Vec::new(), true).unwrap();
    helper.advance_and_run_loop().unwrap();
    assert!(expect_session_terminated(
        &mut helper,
        0,
        WebTransportSessionCloseReason::Clean,
    ));
    app_send_frame(&mut helper, 0, OutboundFrame::Body(Vec::new(), true));
    helper.advance_and_run_loop().unwrap();
    assert_eq!(runtime(&helper).session_count(), 0);

    let late = webtransport_stream_data(WEBTRANSPORT_BIDI_STREAM_TYPE, 0, b"late");
    helper.peer_stream_send(4, late, false).unwrap();
    helper.advance_and_run_loop().unwrap();
    assert!(assert_no_webtransport_session_event(&mut helper));
    assert_eq!(helper.peer_stream_stopped(4), Some(WT_BUFFERED_STREAM_REJECTED));
    assert_eq!(runtime(&helper).pending_stream_count(), 0);
}

#[test]
fn webtransport_local_close_retries_partial_output_before_commit() {
    let mut helper = DriverTestHelper::with_pipe_and_http3_settings(
        Role::Server,
        backpressured_webtransport_pipe(),
        webtransport_settings(),
    );
    accept_webtransport_session(&mut helper).unwrap();

    app_send_frame(&mut helper, 0, OutboundFrame::Body(vec![b'p'; 48], false));
    helper
        .driver
        .close_webtransport_session(0, 3, "close after padding".to_string())
        .unwrap();
    assert_eq!(helper.process_commands(), 1);
    assert!(assert_no_driver_event(&mut helper));

    let mut committed = false;
    for _ in 0..8 {
        helper.advance();
        loop {
            match helper.peer_poll() {
                Some((0, PeerEvent::Data)) => {
                    let _ = helper.peer_recv_body(0).unwrap();
                }
                Some((0, PeerEvent::Finished)) | None => break,
                other => panic!("unexpected peer event: {other:?}"),
            }
        }
        helper.work_loop_iter().unwrap();
        match helper.recv_event() {
            Some(DriverEvent::Core(H3Event::WebTransportSession(
                WebTransportSessionEvent::Terminated {
                    session_id: 0,
                    reason:
                        WebTransportSessionCloseReason::Local {
                            error_code: 3,
                            message,
                        },
                },
            ))) if message == "close after padding" => {
                committed = true;
                break;
            }
            None => {}
            other => panic!("unexpected driver event: {other:?}"),
        }
    }
    assert!(committed, "local close never committed after credit returned");
}

#[test]
fn webtransport_local_close_commits_exact_capsule_and_fin_once() {
    let mut helper = webtransport_helper(webtransport_settings());
    accept_webtransport_session(&mut helper).unwrap();

    helper
        .driver
        .close_webtransport_session(0, 0x1020_3040, "goodbye".to_string())
        .unwrap();
    assert_eq!(helper.process_commands(), 1);
    assert!(expect_session_terminated(
        &mut helper,
        0,
        WebTransportSessionCloseReason::Local {
            error_code: 0x1020_3040,
            message: "goodbye".to_string(),
        },
    ));

    helper.advance();
    assert_eq!(helper.peer_poll(), Some((0, PeerEvent::Data)));
    assert_eq!(
        helper.peer_recv_body(0).unwrap(),
        webtransport_close_capsule(0x1020_3040, "goodbye")
    );
    assert_eq!(helper.peer_poll(), Some((0, PeerEvent::Finished)));

    helper
        .driver
        .close_webtransport_session(0, 9, "duplicate".to_string())
        .unwrap();
    assert_eq!(helper.process_commands(), 1);
    assert!(assert_no_driver_event(&mut helper));
}

#[test]
fn webtransport_local_close_rejects_oversized_message_before_queueing() {
    let mut helper = webtransport_helper(webtransport_settings());
    accept_webtransport_session(&mut helper).unwrap();

    match helper
        .driver
        .close_webtransport_session(0, 1, "x".repeat(1025))
    {
        Err(WebTransportSessionCloseError::MessageTooLong { len, message }) => {
            assert_eq!(len, 1025);
            assert_eq!(message, "x".repeat(1025));
        }
        other => panic!("unexpected admission: {other:?}"),
    }
    assert_eq!(helper.process_commands(), 0);
    assert!(runtime(&helper).is_active(0));
}

#[test]
fn webtransport_peer_close_parses_at_every_fragment_boundary() {
    let close = webtransport_close_capsule(7, "peer close");
    for split in 0..=close.len() {
        let mut helper = webtransport_helper(webtransport_settings());
        accept_webtransport_session(&mut helper).unwrap();

        if split != 0 {
            helper
                .peer_send_body(0, close[..split].to_vec(), false)
                .unwrap();
            helper.advance_and_run_loop().unwrap();
            if split == close.len() {
                assert!(expect_session_terminated(
                    &mut helper,
                    0,
                    WebTransportSessionCloseReason::Peer {
                        error_code: 7,
                        message: "peer close".to_string(),
                    },
                ));
            } else {
                assert!(assert_no_driver_event(&mut helper));
            }
        }
        helper
            .peer_send_body(0, close[split..].to_vec(), true)
            .unwrap();
        helper.advance_and_run_loop().unwrap();
        if split != close.len() {
            assert!(expect_session_terminated(
                &mut helper,
                0,
                WebTransportSessionCloseReason::Peer {
                    error_code: 7,
                    message: "peer close".to_string(),
                },
            ));
        } else {
            assert!(assert_no_webtransport_session_event(&mut helper));
        }
        assert_eq!(helper.peer_poll(), Some((0, PeerEvent::Data)));
        assert_eq!(helper.peer_recv_body(0), None);
        assert_eq!(helper.peer_poll(), Some((0, PeerEvent::Finished)));
    }
}

#[test]
fn webtransport_malformed_peer_close_fails_only_connect_stream() {
    let mut helper = webtransport_helper(webtransport_settings());
    accept_webtransport_session(&mut helper).unwrap();

    let mut malformed = Vec::new();
    encode_varint(WT_CLOSE_SESSION, &mut malformed);
    encode_varint(3, &mut malformed);
    malformed.extend_from_slice(&[0; 3]);
    helper.peer_send_body(0, malformed, true).unwrap();
    helper.advance_and_run_loop().unwrap();
    assert!(expect_session_terminated(
        &mut helper,
        0,
        WebTransportSessionCloseReason::ProtocolError,
    ));
    assert!(helper.local_error().is_none());
}

#[test]
fn webtransport_data_after_peer_close_is_message_error() {
    let mut helper = webtransport_helper(webtransport_settings());
    accept_webtransport_session(&mut helper).unwrap();

    let close = webtransport_close_capsule(0, "done");
    helper.peer_send_body(0, close, false).unwrap();
    helper.advance_and_run_loop().unwrap();
    assert!(expect_session_terminated(
        &mut helper,
        0,
        WebTransportSessionCloseReason::Peer {
            error_code: 0,
            message: "done".to_string(),
        },
    ));

    helper.peer_send_body(0, b"after".to_vec(), true).unwrap();
    helper.advance_and_run_loop().unwrap();
    assert!(helper.local_error().is_none());
    assert!(matches!(
        helper.peer_stream_recv(0),
        RawRead::Reset {
            error_code: H3_MESSAGE_ERROR
        }
    ));
}

#[test]
fn webtransport_crossed_close_has_one_terminal_winner() {
    let mut helper = webtransport_helper(webtransport_settings());
    accept_webtransport_session(&mut helper).unwrap();

    let peer_close = webtransport_close_capsule(8, "peer wins");
    helper.peer_send_body(0, peer_close, true).unwrap();
    helper
        .driver
        .close_webtransport_session(0, 9, "local loses".to_string())
        .unwrap();
    helper.advance_and_run_loop().unwrap();
    assert!(expect_session_terminated(
        &mut helper,
        0,
        WebTransportSessionCloseReason::Peer {
            error_code: 8,
            message: "peer wins".to_string(),
        },
    ));
    assert!(assert_no_webtransport_session_event(&mut helper));
}

#[test]
fn webtransport_connection_teardown_is_terminal_and_clears_metadata() {
    let mut helper = webtransport_helper(webtransport_settings());
    accept_webtransport_session(&mut helper).unwrap();
    let associated = webtransport_stream_data(WEBTRANSPORT_BIDI_STREAM_TYPE, 0, b"open");
    helper
        .peer_stream_send(4, associated.clone(), false)
        .unwrap();
    helper.advance_and_run_loop().unwrap();
    assert!(expect_associated_stream(
        &mut helper,
        0,
        4,
        WebTransportStreamDirection::Bidi,
        associated.len() - b"open".len(),
    ));

    let mut metrics = CloseMetrics::new();
    helper.driver.on_conn_close(&mut metrics, Ok(()));
    assert!(expect_session_terminated(
        &mut helper,
        0,
        WebTransportSessionCloseReason::ConnectionClosed,
    ));
    assert_eq!(runtime(&helper).session_count(), 0);
    assert_eq!(runtime(&helper).pending_stream_count(), 0);
    assert_eq!(runtime(&helper).active_stream_count(), 0);
}

fn get_headers() -> Vec<Header> {
    make_request_headers("GET")
}

/// The search for an event of a session stops at the first one.
#[test]
fn session_event_search_leaves_later_events() {
    let mut helper = webtransport_helper(webtransport_settings());
    start_webtransport_driver(&mut helper).unwrap();
    assert!(assert_no_webtransport_session_event(&mut helper));
    let first = helper.peer_client_send_request(get_headers(), true).unwrap();
    let session = helper
        .peer_client_send_request(make_webtransport_request_headers(), false)
        .unwrap();
    helper.advance_and_run_loop().unwrap();
    assert!(!assert_no_webtransport_session_event(&mut helper));
    assert_ne!(first, session);
    assert!(matches!(
        helper.recv_event(),
        Some(DriverEvent::Headers { stream_id, .. }) if stream_id == session
    ));
    assert!(assert_no_driver_event(&mut helper));
}

/// There is a difference between no event and the end of all events.
#[test]
fn closed_event_lane_is_not_just_empty() {
    let mut helper = webtransport_helper(webtransport_settings());
    assert!(assert_no_driver_event(&mut helper));
    helper.drop_event_receiver();
    assert!(!assert_no_driver_event(&mut helper));
}

/// The peer takes datagrams up to a size, and loses larger ones.
#[test]
fn peer_takes_datagrams_up_to_its_buffer() {
    for (len, fits) in [(127usize, true), (128, false)] {
        let mut helper = webtransport_helper(webtransport_settings());
        let payload = vec![7; len];
        let mut wire = vec![0];
        wire.extend_from_slice(&payload);
        assert!(helper.driver.core.transport.send_dgram(wire).is_none());
        helper.advance();
        assert_eq!(assert_client_raw_h3_dgram(&mut helper, 0, &payload), fits);
        assert!(assert_client_no_raw_h3_dgram(&mut helper));
    }
}

/// A turn that fails spoils what it was run for.
#[test]
fn failed_turns_are_not_passed_over() {
    let mut settings = webtransport_settings();
    settings.event_capacity = 1;
    let mut helper = webtransport_helper(settings);
    start_webtransport_driver(&mut helper).unwrap();
    helper.peer_client_send_request(get_headers(), true).unwrap();
    helper.peer_client_send_request(get_headers(), true).unwrap();
    assert_eq!(webtransport_retention_stats(&mut helper), None);
    assert!(helper.has_failed());
}
