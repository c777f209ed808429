use h3_driver::conn_close::{CloseMetrics, H3ConnectionError};
use h3_driver::driver::desk::Retry;
use h3_driver::driver::events::{DriverEvent, H3Event};
use h3_driver::driver::helper::DriverTestHelper;
use h3_driver::peer_log::{PeerEvent, RawRead};
use h3_driver::server_side_driver::{
    accept_pending_webtransport_session, accept_webtransport_session,
    exact_prefix_capacity_webtransport_pipe, expect_session_terminated,
    open_pending_webtransport_session, open_server_webtransport_bidi,
    payload_backpressured_webtransport_pipe, receive_server_webtransport_stream,
    retire_receive_terminal, single_dgram_queue_webtransport_pipe, start_webtransport_driver,
    webtransport_helper, webtransport_retention_stats, webtransport_settings,
};
use h3_driver::settings::Http3Settings;
use h3_driver::transport::Role;
use h3_driver::wire::error_code::webtransport_error_to_http3;
use h3_driver::wire::stream_prefix::WebTransportStreamDirection;
use h3_driver::wt::block_reasons::{StreamSendBlockReasons, StreamSendRetryDisposition};
use h3_driver::wt::requests::{
    WebTransportDatagramReadOutcome, WebTransportDatagramSendOutcome, WebTransportOutcome,
    WebTransportReadyOutcome, WebTransportRequest, WebTransportStreamReadOutcome,
    WebTransportStreamReceiveTerminalRetirementOutcome,
};
use h3_driver::wt::retention::{
    assert_terminal_retention_current_zero, WebTransportRetentionStats,
    WebTransportTerminalRetentionOutcome, WebTransportTerminalRetentionPending,
};
use h3_driver::wt::snapshot::{
    PathSnapshot, SnapshotOutcome, WebTransportLiveConnectionSnapshot,
};
use h3_driver::wt::stream_ends::WebTransportStreamReceiveTerminal;
use h3_driver::wt::types::{WebTransportSelectionError, WebTransportSessionCloseReason};
use h3_driver::wt::write_lease::{
    mock_write_lease, mock_write_lease_log, LeaseVerdict, MockWriteLeaseError,
    WebTransportStreamWriteLeaseLimit, WebTransportStreamWriteLeaseOutcome,
    WebTransportStreamWriteLeaseProgress, WebTransportStreamWriteRetry,
};

/// Starts the driver and has the session of the peer accepted.
fn accept(mut helper: DriverTestHelper) -> (DriverTestHelper, u64) {
    start_webtransport_driver(&mut helper).unwrap();
    let session_id = open_pending_webtransport_session(&mut helper).unwrap();
    assert!(accept_pending_webtransport_session(&mut helper, session_id));
    (helper, session_id)
}

fn accepted(settings: Http3Settings) -> (DriverTestHelper, u64) {
    accept(webtransport_helper(settings))
}

/// A helper whose streams have just the credit for their prefix.
fn accepted_without_credit() -> (DriverTestHelper, u64) {
    accept(DriverTestHelper::with_pipe_and_http3_settings(
        Role::Server,
        exact_prefix_capacity_webtransport_pipe(),
        webtransport_settings(),
    ))
}

fn ask(helper: &mut DriverTestHelper, request: WebTransportRequest) -> u64 {
    helper.ask(request).unwrap()
}

fn outcome(helper: &mut DriverTestHelper, op: u64) -> WebTransportOutcome {
    helper.take_answer(op).expect("the request has no answer")
}

/// Asks, runs one turn and takes the answer.
fn asked(helper: &mut DriverTestHelper, request: WebTransportRequest) -> WebTransportOutcome {
    let op = ask(helper, request);
    helper.work_loop_iter().unwrap();
    outcome(helper, op)
}

fn lease_outcome(helper: &mut DriverTestHelper, op: u64) -> WebTransportStreamWriteLeaseOutcome {
    match outcome(helper, op) {
        WebTransportOutcome::Lease(outcome) => outcome,
        other => panic!("unexpected answer: {other:?}"),
    }
}

/// Lends a payload, runs one turn and takes the outcome.
fn lend(
    helper: &mut DriverTestHelper,
    session_id: u64,
    stream_id: u64,
    id: u64,
    payload: &[u8],
    fin: bool,
) -> WebTransportStreamWriteLeaseOutcome {
    let op = helper
        .driver
        .try_write_stream_lease(session_id, stream_id, mock_write_lease(id, payload), fin)
        .unwrap();
    helper.work_loop_iter().unwrap();
    lease_outcome(helper, op)
}

fn retry_of(outcome: &WebTransportStreamWriteLeaseOutcome) -> WebTransportStreamWriteRetry {
    match outcome.verdict {
        LeaseVerdict::Blocked { retry, .. } => retry,
        other => panic!("unexpected outcome: {other:?}"),
    }
}

fn blocked_by(outcome: &WebTransportStreamWriteLeaseOutcome) -> StreamSendBlockReasons {
    match outcome.verdict {
        LeaseVerdict::Blocked { reasons, .. } => reasons,
        other => panic!("unexpected outcome: {other:?}"),
    }
}

fn stats(helper: &mut DriverTestHelper) -> WebTransportRetentionStats {
    webtransport_retention_stats(helper).unwrap()
}

fn drop_connection(helper: &mut DriverTestHelper) {
    let mut metrics = CloseMetrics::new();
    helper.driver.on_conn_close(&mut metrics, Ok(()));
}

/// The peer learns of a stream of this end.
fn receive_bidi(helper: &mut DriverTestHelper, session_id: u64, stream_id: u64) {
    assert!(receive_server_webtransport_stream(
        helper,
        session_id,
        stream_id,
        WebTransportStreamDirection::Bidi,
    ));
}

/// The credit of a stream is used up, and nothing else is wrong.
fn no_credit() -> StreamSendBlockReasons {
    StreamSendBlockReasons {
        stream_flow_control: true,
        ..StreamSendBlockReasons::empty()
    }
}

fn ready(outcome: WebTransportReadyOutcome) -> WebTransportOutcome {
    WebTransportOutcome::Ready(outcome)
}

#[test]
fn webtransport_write_lease_preflight_and_lane_rejections_preserve_owner() {
    let mut settings = webtransport_settings();
    settings.webtransport_command_capacity = 1;
    settings.webtransport_max_stream_write_bytes = 4;
    settings.webtransport_max_stream_write_lease_retained_bytes = 4;
    let mut helper = webtransport_helper(settings);
    start_webtransport_driver(&mut helper).unwrap();

    let oversized = helper
        .driver
        .try_write_stream_lease(0, 1, mock_write_lease(1, b"12345"), true)
        .unwrap_err();
    assert_eq!(
        oversized.verdict.progress(),
        WebTransportStreamWriteLeaseProgress::NeverExposed
    );
    assert_eq!(
        oversized.verdict,
        LeaseVerdict::TooLarge {
            limit: WebTransportStreamWriteLeaseLimit::Payload,
            max: 4,
            actual: 5,
        }
    );
    assert!(oversized.fin);
    assert_eq!(oversized.lease.id, 1);
    assert_eq!(mock_write_lease_log(&oversized.lease).exposures, 0);

    let mut lease = mock_write_lease(2, b"x");
    lease.retained_bytes = 5;
    let oversized = helper
        .driver
        .try_write_stream_lease(0, 1, lease, false)
        .unwrap_err();
    assert_eq!(
        oversized.verdict,
        LeaseVerdict::TooLarge {
            limit: WebTransportStreamWriteLeaseLimit::RetainedBytes,
            max: 4,
            actual: 5,
        }
    );
    assert!(!oversized.fin);
    assert_eq!(oversized.lease.id, 2);
    assert_eq!(mock_write_lease_log(&oversized.lease).exposures, 0);

    let held = helper
        .driver
        .try_write_stream_lease(0, 1, mock_write_lease(3, b"held"), true)
        .unwrap();
    assert_eq!(helper.driver.requests.len(), 1);

    let waiting = mock_write_lease(4, b"wait");
    helper.driver.give_up_waiting_lease(waiting);
    let dropped = helper.driver.take_dropped();
    assert_eq!(dropped.len(), 1);
    let log = mock_write_lease_log(&dropped[0]);
    assert_eq!(log.exposures, 0);
    assert_eq!(
        log.abandonments,
        [WebTransportStreamWriteLeaseProgress::NeverExposed]
    );

    let full = helper
        .driver
        .try_write_stream_lease(0, 1, mock_write_lease(5, b"full"), false)
        .unwrap_err();
    assert_eq!(full.verdict, LeaseVerdict::QueueFull);
    assert!(!full.fin);
    assert_eq!(full.lease.id, 5);
    assert_eq!(mock_write_lease_log(&full.lease).exposures, 0);

    helper.work_loop_iter().unwrap();
    let held = lease_outcome(&mut helper, held);
    assert_eq!(
        held.verdict,
        LeaseVerdict::Rejected(WebTransportSelectionError::UnknownSession)
    );
    assert!(held.fin);
    assert_eq!(held.lease.id, 3);
    assert_eq!(mock_write_lease_log(&held.lease).exposures, 0);

    let now = stats(&mut helper);
    assert_eq!(now.write_leases, 0);
    assert_eq!(now.write_lease_admitted_total, 1);
    assert_eq!(now.write_lease_queue_full_total, 1);
    assert_eq!(now.write_lease_resource_limit_total, 0);
    assert_eq!(now.write_lease_too_large_total, 2);

    drop_connection(&mut helper);
    let closed = helper
        .driver
        .try_write_stream_lease(0, 1, mock_write_lease(6, b"shut"), false)
        .unwrap_err();
    assert_eq!(
        closed.verdict,
        LeaseVerdict::Rejected(WebTransportSelectionError::ConnectionClosed)
    );
    assert!(!closed.fin);
    assert_eq!(closed.lease.id, 6);
    assert_eq!(mock_write_lease_log(&closed.lease).exposures, 0);
}

#[test]
fn webtransport_write_lease_is_byte_exact_without_prewrite_copy() {
    let mut settings = webtransport_settings();
    settings.webtransport_max_stream_write_bytes = 8;
    settings.webtransport_max_stream_write_lease_retained_bytes = 8;
    let (mut helper, session_id) = accepted(settings);
    let stream_id = open_server_webtransport_bidi(&mut helper, session_id).unwrap();
    receive_bidi(&mut helper, session_id, stream_id);

    let too_large = helper
        .driver
        .try_write_stream_lease(session_id, stream_id, mock_write_lease(10, b"123456789"), true)
        .unwrap_err();
    assert_eq!(
        too_large.verdict,
        LeaseVerdict::TooLarge {
            limit: WebTransportStreamWriteLeaseLimit::Payload,
            max: 8,
            actual: 9,
        }
    );
    assert_eq!(mock_write_lease_log(&too_large.lease).exposures, 0);

    let mut lease = mock_write_lease(13, b"unready");
    lease.fail_exposure = true;
    let op = helper
        .driver
        .try_write_stream_lease(session_id, stream_id, lease, false)
        .unwrap();
    helper.work_loop_iter().unwrap();
    let unavailable = lease_outcome(&mut helper, op);
    assert_eq!(
        unavailable.verdict,
        LeaseVerdict::LeaseError(MockWriteLeaseError::Unavailable)
    );
    assert_eq!(unavailable.lease.id, 13);
    assert_eq!(mock_write_lease_log(&unavailable.lease).exposures, 0);

    let mut lease = mock_write_lease(14, b"12345678");
    lease.declared_len = 7;
    let op = helper
        .driver
        .try_write_stream_lease(session_id, stream_id, lease, false)
        .unwrap();
    helper.work_loop_iter().unwrap();
    let invalid = lease_outcome(&mut helper, op);
    assert_eq!(
        invalid.verdict,
        LeaseVerdict::InvalidLength {
            declared: 7,
            actual: 8,
        }
    );
    assert_eq!(invalid.lease.id, 14);
    assert_eq!(mock_write_lease_log(&invalid.lease).exposures, 1);

    let lease = mock_write_lease(11, b"12345678");
    let pointer = lease.payload.as_ptr();
    let op = helper
        .driver
        .try_write_stream_lease(session_id, stream_id, lease, true)
        .unwrap();
    assert_eq!(helper.driver.desk.ledger.retained, 8);
    helper.work_loop_iter().unwrap();
    let written = lease_outcome(&mut helper, op);
    assert_eq!(
        written.verdict.progress(),
        WebTransportStreamWriteLeaseProgress::AcceptedComplete {
            accepted: 8,
            fin_accepted: true,
        }
    );
    assert_eq!(
        written.verdict,
        LeaseVerdict::Accepted {
            accepted: 8,
            complete: true,
            fin_accepted: true,
        }
    );
    assert_eq!(written.lease.id, 11);
    assert_eq!(written.lease.payload, b"12345678");
    assert_eq!(written.lease.payload.as_ptr(), pointer);
    let log = mock_write_lease_log(&written.lease);
    assert_eq!(log.exposures, 1);
    assert!(log.abandonments.is_empty());

    helper.advance();
    assert_eq!(
        helper.peer_stream_recv(stream_id),
        RawRead::Data {
            data: b"12345678".to_vec(),
            fin: true,
        }
    );

    let late = lend(&mut helper, session_id, stream_id, 15, b"late", false);
    assert_eq!(late.verdict, LeaseVerdict::Closed);
    assert_eq!(mock_write_lease_log(&late.lease).exposures, 0);

    let fin_stream = open_server_webtransport_bidi(&mut helper, session_id).unwrap();
    receive_bidi(&mut helper, session_id, fin_stream);
    let fin_only = lend(&mut helper, session_id, fin_stream, 12, b"", true);
    assert_eq!(
        fin_only.verdict,
        LeaseVerdict::Accepted {
            accepted: 0,
            complete: true,
            fin_accepted: true,
        }
    );
    assert_eq!(fin_only.lease.id, 12);
    assert_eq!(mock_write_lease_log(&fin_only.lease).exposures, 1);
    helper.advance();
    assert_eq!(
        helper.peer_stream_recv(fin_stream),
        RawRead::Data {
            data: Vec::new(),
            fin: true,
        }
    );
}

#[test]
fn webtransport_blocked_write_lease_keeps_owner_through_terminals() {
    let (mut helper, session_id) = accepted_without_credit();
    let stream_id = open_server_webtransport_bidi(&mut helper, session_id).unwrap();

    let lease = mock_write_lease(110, b"terminal");
    let pointer = lease.payload.as_ptr();
    let op = helper
        .driver
        .try_write_stream_lease(session_id, stream_id, lease, true)
        .unwrap();
    helper.work_loop_iter().unwrap();
    let blocked = lease_outcome(&mut helper, op);
    let retry = retry_of(&blocked);
    assert!(blocked.fin);
    assert_eq!(blocked_by(&blocked), no_credit());
    assert_eq!(
        blocked_by(&blocked).retry_disposition(),
        StreamSendRetryDisposition::WaitForTransportWritable
    );
    assert_eq!(blocked.lease.payload.as_ptr(), pointer);
    assert_eq!(
        blocked.verdict.progress(),
        WebTransportStreamWriteLeaseProgress::ExposedKnownZero
    );

    receive_bidi(&mut helper, session_id, stream_id);
    let wire_error = webtransport_error_to_http3(73);
    helper.peer_shutdown_read(stream_id, wire_error);
    helper.advance_and_run_loop().unwrap();
    assert_eq!(
        asked(&mut helper, WebTransportRequest::AwaitWritable { retry }),
        ready(WebTransportReadyOutcome::ResetRequired {
            wire_error_code: wire_error,
            application_error_code: Some(73),
        })
    );

    let op = helper
        .driver
        .try_write_stream_lease(session_id, stream_id, blocked.lease, true)
        .unwrap();
    helper.work_loop_iter().unwrap();
    let stopped = lease_outcome(&mut helper, op);
    assert_eq!(
        stopped.verdict,
        LeaseVerdict::ResetRequired {
            wire_error_code: wire_error,
            application_error_code: Some(73),
        }
    );
    assert!(stopped.fin);
    assert_eq!(stopped.lease.id, 110);
    assert_eq!(stopped.lease.payload, b"terminal");
    assert_eq!(stopped.lease.payload.as_ptr(), pointer);
    assert_eq!(mock_write_lease_log(&stopped.lease).exposures, 2);

    let (mut helper, session_id) = accepted_without_credit();
    let stream_id = open_server_webtransport_bidi(&mut helper, session_id).unwrap();
    let lease = mock_write_lease(111, b"teardown");
    let pointer = lease.payload.as_ptr();
    let op = helper
        .driver
        .try_write_stream_lease(session_id, stream_id, lease, false)
        .unwrap();
    helper.work_loop_iter().unwrap();
    let blocked = lease_outcome(&mut helper, op);
    retry_of(&blocked);
    assert_eq!(blocked.lease.payload.as_ptr(), pointer);
    let closing = helper
        .driver
        .try_write_stream_lease(session_id, stream_id, blocked.lease, false)
        .unwrap();
    drop_connection(&mut helper);
    let closed = lease_outcome(&mut helper, closing);
    assert_eq!(
        closed.verdict,
        LeaseVerdict::Rejected(WebTransportSelectionError::ConnectionClosed)
    );
    assert!(!closed.fin);
    assert_eq!(closed.lease.id, 111);
    assert_eq!(closed.lease.payload.as_ptr(), pointer);
    assert_eq!(mock_write_lease_log(&closed.lease).exposures, 1);
}

#[test]
fn webtransport_write_lease_partial_retry_and_wakeup_are_fair() {
    let mut settings = webtransport_settings();
    settings.webtransport_command_capacity = 4;
    settings.webtransport_max_session_work_per_callback = 1;
    settings.webtransport_max_stream_write_bytes = 128;
    settings.webtransport_max_stream_write_lease_retained_bytes = 128;
    let (mut helper, session_id) = accept(DriverTestHelper::with_pipe_and_http3_settings(
        Role::Server,
        payload_backpressured_webtransport_pipe(),
        settings,
    ));
    let blocked_stream = open_server_webtransport_bidi(&mut helper, session_id).unwrap();
    receive_bidi(&mut helper, session_id, blocked_stream);
    let healthy_stream = open_server_webtransport_bidi(&mut helper, session_id).unwrap();
    receive_bidi(&mut helper, session_id, healthy_stream);

    let payload: Vec<u8> = (0..80).collect();
    let first_lease = mock_write_lease(20, &payload);
    let first_pointer = first_lease.payload.as_ptr();
    let first = helper
        .driver
        .try_write_stream_lease(session_id, blocked_stream, first_lease, true)
        .unwrap();
    let healthy = helper
        .driver
        .try_write_stream_lease(
            session_id,
            healthy_stream,
            mock_write_lease(21, b"healthy"),
            true,
        )
        .unwrap();
    assert_eq!(helper.driver.requests.len(), 2);

    helper.work_loop_iter().unwrap();
    assert_eq!(helper.driver.requests.len(), 1);
    assert!(!helper.is_answered(healthy));
    let first = lease_outcome(&mut helper, first);
    assert_eq!(
        first.verdict,
        LeaseVerdict::Accepted {
            accepted: 61,
            complete: false,
            fin_accepted: false,
        }
    );
    assert_eq!(
        first.verdict.progress(),
        WebTransportStreamWriteLeaseProgress::AcceptedPartial { accepted: 61 }
    );
    assert_eq!(first.lease.payload.as_ptr(), first_pointer);
    assert_eq!(mock_write_lease_log(&first.lease).exposures, 1);

    helper.work_loop_iter().unwrap();
    let healthy = lease_outcome(&mut helper, healthy);
    assert_eq!(
        healthy.verdict,
        LeaseVerdict::Accepted {
            accepted: 7,
            complete: true,
            fin_accepted: true,
        }
    );
    assert_eq!(healthy.lease.id, 21);
    assert_eq!(mock_write_lease_log(&healthy.lease).exposures, 1);

    let retry_lease = mock_write_lease(22, &payload[61..]);
    let retry_pointer = retry_lease.payload.as_ptr();
    let op = helper
        .driver
        .try_write_stream_lease(session_id, blocked_stream, retry_lease, true)
        .unwrap();
    helper.work_loop_iter().unwrap();
    let rest = lease_outcome(&mut helper, op);
    assert!(rest.fin);
    assert_eq!(blocked_by(&rest), no_credit());
    assert_eq!(
        blocked_by(&rest).retry_disposition(),
        StreamSendRetryDisposition::WaitForTransportWritable
    );
    assert_eq!(rest.lease.id, 22);
    assert_eq!(rest.lease.payload.as_ptr(), retry_pointer);
    assert_eq!(mock_write_lease_log(&rest.lease).exposures, 1);

    let cancelled = ask(
        &mut helper,
        WebTransportRequest::AwaitWritable {
            retry: retry_of(&rest),
        },
    );
    helper.work_loop_iter().unwrap();
    assert!(!helper.is_answered(cancelled));
    assert_eq!(helper.driver.desk.ready_waits.len(), 1);
    helper.driver.cancel(cancelled);
    helper.work_loop_iter().unwrap();
    assert_eq!(helper.driver.desk.ready_waits.len(), 0);

    let op = helper
        .driver
        .try_write_stream_lease(session_id, blocked_stream, rest.lease, true)
        .unwrap();
    helper.work_loop_iter().unwrap();
    let rest = lease_outcome(&mut helper, op);
    assert!(rest.fin);
    assert_eq!(blocked_by(&rest), no_credit());
    assert_eq!(rest.lease.payload.as_ptr(), retry_pointer);
    let writable = ask(
        &mut helper,
        WebTransportRequest::AwaitWritable {
            retry: retry_of(&rest),
        },
    );
    helper.work_loop_iter().unwrap();
    assert!(!helper.is_answered(writable));

    helper.advance();
    assert_eq!(
        helper.peer_stream_recv(blocked_stream),
        RawRead::Data {
            data: payload[..61].to_vec(),
            fin: false,
        }
    );
    assert_eq!(
        helper.peer_stream_recv(healthy_stream),
        RawRead::Data {
            data: b"healthy".to_vec(),
            fin: true,
        }
    );
    helper.advance_and_run_loop().unwrap();
    assert_eq!(
        outcome(&mut helper, writable),
        ready(WebTransportReadyOutcome::WriteTransportWake {
            reasons: no_credit(),
        })
    );

    let op = helper
        .driver
        .try_write_stream_lease(session_id, blocked_stream, rest.lease, true)
        .unwrap();
    helper.work_loop_iter().unwrap();
    let rest = lease_outcome(&mut helper, op);
    assert_eq!(
        rest.verdict,
        LeaseVerdict::Accepted {
            accepted: 19,
            complete: true,
            fin_accepted: true,
        }
    );
    assert_eq!(rest.lease.id, 22);
    assert_eq!(rest.lease.payload.as_ptr(), retry_pointer);
    assert_eq!(mock_write_lease_log(&rest.lease).exposures, 3);
    helper.advance();
    assert_eq!(
        helper.peer_stream_recv(blocked_stream),
        RawRead::Data {
            data: payload[61..].to_vec(),
            fin: true,
        }
    );

    let now = stats(&mut helper);
    assert_eq!(now.write_leases, 0);
    assert_eq!(now.write_lease_retained_bytes, 0);
}

#[test]
fn webtransport_write_lease_cancellation_settles_exact_progress() {
    let (mut helper, session_id) = accepted_without_credit();
    let stream_id = open_server_webtransport_bidi(&mut helper, session_id).unwrap();

    let unexposed = helper
        .driver
        .try_write_stream_lease(session_id, stream_id, mock_write_lease(30, b"unexposed"), false)
        .unwrap();
    helper.driver.cancel(unexposed);
    helper.work_loop_iter().unwrap();
    let dropped = helper.driver.take_dropped();
    assert_eq!(dropped.len(), 1);
    let log = mock_write_lease_log(&dropped[0]);
    assert_eq!(log.exposures, 0);
    assert_eq!(
        log.abandonments,
        [WebTransportStreamWriteLeaseProgress::NeverExposed]
    );

    let blocked = helper
        .driver
        .try_write_stream_lease(session_id, stream_id, mock_write_lease(31, b"blocked"), false)
        .unwrap();
    helper.work_loop_iter().unwrap();
    helper.driver.cancel(blocked);
    let dropped = helper.driver.take_dropped();
    assert_eq!(dropped.len(), 1);
    let log = mock_write_lease_log(&dropped[0]);
    assert_eq!(log.exposures, 1);
    assert_eq!(
        log.abandonments,
        [WebTransportStreamWriteLeaseProgress::ExposedKnownZero]
    );

    let now = stats(&mut helper);
    assert_eq!(now.write_leases, 0);
    assert_eq!(now.write_lease_abandoned_unexposed_total, 1);
    assert_eq!(now.write_lease_abandoned_zero_total, 1);
    assert_eq!(now.write_lease_abandoned_unknown_total, 0);

    let (mut helper, session_id) = accepted(webtransport_settings());
    let stream_id = open_server_webtransport_bidi(&mut helper, session_id).unwrap();
    receive_bidi(&mut helper, session_id, stream_id);
    let written = helper
        .driver
        .try_write_stream_lease(session_id, stream_id, mock_write_lease(32, b"accepted"), false)
        .unwrap();
    helper.work_loop_iter().unwrap();
    helper.driver.cancel(written);
    let dropped = helper.driver.take_dropped();
    assert_eq!(dropped.len(), 1);
    let log = mock_write_lease_log(&dropped[0]);
    assert_eq!(log.exposures, 1);
    assert_eq!(
        log.abandonments,
        [WebTransportStreamWriteLeaseProgress::Unknowable]
    );
    helper.advance();
    assert_eq!(
        helper.peer_stream_recv(stream_id),
        RawRead::Data {
            data: b"accepted".to_vec(),
            fin: false,
        }
    );
    assert_eq!(stats(&mut helper).write_lease_abandoned_unknown_total, 1);
}

#[test]
fn webtransport_write_lease_retention_is_bounded_until_owner_return() {
    let mut settings = webtransport_settings();
    settings.webtransport_command_capacity = 2;
    settings.webtransport_max_stream_write_bytes = 8;
    settings.webtransport_max_stream_write_lease_retained_bytes = 8;
    let mut helper = webtransport_helper(settings);
    start_webtransport_driver(&mut helper).unwrap();

    let first = helper
        .driver
        .try_write_stream_lease(99, 1, mock_write_lease(40, b"aaaa"), false)
        .unwrap();
    let second = helper
        .driver
        .try_write_stream_lease(99, 5, mock_write_lease(41, b"bbbb"), false)
        .unwrap();
    helper.work_loop_iter().unwrap();
    assert_eq!(helper.driver.requests.len(), 0);

    let limited = helper
        .driver
        .try_write_stream_lease(99, 9, mock_write_lease(42, b"cccc"), false)
        .unwrap_err();
    assert_eq!(limited.verdict, LeaseVerdict::ResourceLimit);
    assert!(!limited.fin);
    assert_eq!(limited.lease.id, 42);
    assert_eq!(mock_write_lease_log(&limited.lease).exposures, 0);

    let now = stats(&mut helper);
    assert_eq!(now.write_leases, 2);
    assert_eq!(now.write_lease_retained_bytes, 8);
    assert_eq!(now.max_write_leases, 2);
    assert_eq!(now.max_write_lease_retained_bytes, 16);
    assert_eq!(now.write_lease_admitted_total, 2);
    assert_eq!(now.write_lease_resource_limit_total, 1);
    assert!(now.write_leases <= now.max_write_leases);
    assert!(now.write_lease_retained_bytes <= now.max_write_lease_retained_bytes);

    let first = lease_outcome(&mut helper, first);
    assert_eq!(
        first.verdict,
        LeaseVerdict::Rejected(WebTransportSelectionError::UnknownSession)
    );
    assert!(!first.fin);
    assert_eq!(first.lease.id, 40);
    assert_eq!(mock_write_lease_log(&first.lease).exposures, 0);

    let replacement = helper
        .driver
        .try_write_stream_lease(99, 9, mock_write_lease(43, b"dddd"), false)
        .unwrap();
    drop_connection(&mut helper);
    let replacement = lease_outcome(&mut helper, replacement);
    assert_eq!(
        replacement.verdict,
        LeaseVerdict::Rejected(WebTransportSelectionError::ConnectionClosed)
    );
    assert_eq!(replacement.lease.id, 43);
    assert_eq!(mock_write_lease_log(&replacement.lease).exposures, 0);

    let second = lease_outcome(&mut helper, second);
    assert_eq!(
        second.verdict,
        LeaseVerdict::Rejected(WebTransportSelectionError::UnknownSession)
    );
    assert_eq!(second.lease.id, 41);
    assert_eq!(mock_write_lease_log(&second.lease).exposures, 0);
}

#[test]
fn webtransport_write_retry_tokens_are_attempt_bound() {
    let (mut helper, session_id) = accepted(webtransport_settings());
    let blocked = open_server_webtransport_bidi(&mut helper, session_id).unwrap();
    let reasons = StreamSendBlockReasons {
        send_capacity_factor: true,
        ..StreamSendBlockReasons::empty()
    };
    helper.driver.core.transport.hold_back(reasons);

    let first_lease = mock_write_lease(120, b"first");
    let first_pointer = first_lease.payload.as_ptr();
    let first = helper
        .driver
        .try_write_stream_lease(session_id, blocked, first_lease, false)
        .unwrap();
    let second_lease = mock_write_lease(121, b"second");
    let second_pointer = second_lease.payload.as_ptr();
    let second = helper
        .driver
        .try_write_stream_lease(session_id, blocked, second_lease, false)
        .unwrap();
    helper.work_loop_iter().unwrap();

    let first = lease_outcome(&mut helper, first);
    let second = lease_outcome(&mut helper, second);
    for outcome in [&first, &second] {
        assert!(!outcome.fin);
        assert_eq!(blocked_by(outcome), reasons);
        assert_eq!(mock_write_lease_log(&outcome.lease).exposures, 1);
    }
    assert_eq!(first.lease.payload.as_ptr(), first_pointer);
    assert_eq!(second.lease.payload.as_ptr(), second_pointer);
    let retained = stats(&mut helper);
    assert_eq!(retained.write_leases, 2);
    assert_eq!(retained.write_lease_retained_bytes, 0);

    for outcome in [&second, &first] {
        assert_eq!(
            asked(
                &mut helper,
                WebTransportRequest::AwaitWritable {
                    retry: retry_of(outcome),
                }
            ),
            ready(WebTransportReadyOutcome::WriteStateChangeRequired {
                blocked_reasons: reasons,
                state_change_reasons: reasons,
            })
        );
    }
    let now = stats(&mut helper);
    assert_eq!(now.write_leases, 0);
    assert_eq!(now.write_lease_retained_bytes, 0);
}

/// A right to try again is worth nothing to a driver that never gave it.
#[test]
fn retry_right_of_another_driver_is_refused() {
    let (mut first, first_session) = accepted_without_credit();
    let first_stream = open_server_webtransport_bidi(&mut first, first_session).unwrap();
    let (mut second, second_session) = accepted_without_credit();
    second.driver.identify(1);
    let second_stream = open_server_webtransport_bidi(&mut second, second_session).unwrap();
    assert_eq!(first_session, second_session);
    assert_eq!(first_stream, second_stream);

    let lease = mock_write_lease(122, b"identity");
    let pointer = lease.payload.as_ptr();
    let op = first
        .driver
        .try_write_stream_lease(first_session, first_stream, lease, false)
        .unwrap();
    first.work_loop_iter().unwrap();
    let blocked = lease_outcome(&mut first, op);
    assert_eq!(blocked_by(&blocked), no_credit());
    assert_eq!(blocked.lease.payload.as_ptr(), pointer);
    let debug = format!("{:?}", retry_of(&blocked));
    assert!(!debug.contains("accounting"));
    assert!(!debug.contains("reservation"));
    assert!(!debug.contains("0x"));
    let retained = stats(&mut first);
    assert_eq!(retained.write_leases, 1);
    assert_eq!(retained.write_lease_retained_bytes, 0);

    let before = stats(&mut second);
    assert_eq!(
        asked(
            &mut second,
            WebTransportRequest::AwaitWritable {
                retry: retry_of(&blocked),
            }
        ),
        ready(WebTransportReadyOutcome::Rejected(
            WebTransportSelectionError::ForeignController
        ))
    );
    let after = stats(&mut second);
    assert_eq!(after.waiters, before.waiters);
    assert_eq!(after.metadata_index_entries, before.metadata_index_entries);
    first.driver.drop_retry(retry_of(&blocked));
    let released = stats(&mut first);
    assert_eq!(released.write_leases, 0);
    assert_eq!(released.write_lease_retained_bytes, 0);

    let op = first
        .driver
        .try_write_stream_lease(first_session, first_stream, blocked.lease, false)
        .unwrap();
    first.work_loop_iter().unwrap();
    let blocked = lease_outcome(&mut first, op);
    assert_eq!(blocked_by(&blocked), no_credit());
    let writable = ask(
        &mut first,
        WebTransportRequest::AwaitWritable {
            retry: retry_of(&blocked),
        },
    );
    first.work_loop_iter().unwrap();
    assert!(!first.is_answered(writable));
    receive_bidi(&mut first, first_session, first_stream);
    first.advance_and_run_loop().unwrap();
    assert_eq!(
        outcome(&mut first, writable),
        ready(WebTransportReadyOutcome::WriteTransportWake {
            reasons: no_credit(),
        })
    );

    let op = first
        .driver
        .try_write_stream_lease(first_session, first_stream, blocked.lease, false)
        .unwrap();
    first.work_loop_iter().unwrap();
    let written = lease_outcome(&mut first, op);
    assert_eq!(
        written.verdict,
        LeaseVerdict::Accepted {
            accepted: 3,
            complete: false,
            fin_accepted: false,
        }
    );
    assert_eq!(written.lease.payload.as_ptr(), pointer);
    assert_eq!(mock_write_lease_log(&written.lease).exposures, 3);
    let now = stats(&mut first);
    assert_eq!(now.write_leases, 0);
    assert_eq!(now.write_lease_retained_bytes, 0);
}

/// Nor is the right of another driver taken for one of the same number.
#[test]
fn retry_right_of_the_same_number_is_refused() {
    let (mut first, first_session) = accepted_without_credit();
    let first_stream = open_server_webtransport_bidi(&mut first, first_session).unwrap();
    let (mut second, second_session) = accepted_without_credit();
    second.driver.identify(1);
    let second_stream = open_server_webtransport_bidi(&mut second, second_session).unwrap();

    let foreign = lend(&mut first, first_session, first_stream, 123, b"first", false);
    let own = lend(&mut second, second_session, second_stream, 124, b"second", false);
    assert_eq!(retry_of(&foreign).op, retry_of(&own).op);
    assert_ne!(retry_of(&foreign), retry_of(&own));
    assert_eq!(
        asked(
            &mut second,
            WebTransportRequest::AwaitWritable {
                retry: retry_of(&foreign),
            }
        ),
        ready(WebTransportReadyOutcome::Rejected(
            WebTransportSelectionError::ForeignController
        ))
    );
    second.driver.drop_retry(retry_of(&foreign));
    assert_eq!(stats(&mut second).write_leases, 1);
    assert_eq!(stats(&mut first).write_leases, 1);
}

/// What is printed of a lease tells its size, and none of its bytes.
#[test]
fn leases_are_described_without_their_bytes() {
    let mut lease = mock_write_lease(1_230, b"secret");
    lease.retained_bytes = 40;
    assert_eq!(
        lease.describe(),
        "MockWriteLease { id: 1230, payload_len: 6, declared_len: 6, retained_bytes: 40, .. }"
    );
    assert!(!lease.describe().contains("secret"));
}

#[test]
fn retry_right_is_used_once() {
    let (mut helper, session_id) = accepted_without_credit();
    let stream_id = open_server_webtransport_bidi(&mut helper, session_id).unwrap();
    let first = lend(&mut helper, session_id, stream_id, 120, b"first", false);
    let second = lend(&mut helper, session_id, stream_id, 121, b"second", false);
    assert_ne!(retry_of(&first), retry_of(&second));
    let now = stats(&mut helper);
    assert_eq!(now.write_leases, 2);
    assert_eq!(now.write_lease_retained_bytes, 0);

    let waiting = ask(
        &mut helper,
        WebTransportRequest::AwaitWritable {
            retry: retry_of(&first),
        },
    );
    helper.work_loop_iter().unwrap();
    assert!(!helper.is_answered(waiting));
    assert_eq!(
        asked(
            &mut helper,
            WebTransportRequest::AwaitWritable {
                retry: retry_of(&first),
            }
        ),
        ready(WebTransportReadyOutcome::Rejected(
            WebTransportSelectionError::ForeignController
        ))
    );
    assert_eq!(
        asked(
            &mut helper,
            WebTransportRequest::AwaitWritable {
                retry: retry_of(&second),
            }
        ),
        ready(WebTransportReadyOutcome::Rejected(
            WebTransportSelectionError::ResourceLimit
        ))
    );
    let now = stats(&mut helper);
    assert_eq!(now.write_leases, 0);
    assert_eq!(now.waiters, 1);

    receive_bidi(&mut helper, session_id, stream_id);
    helper.advance_and_run_loop().unwrap();
    assert_eq!(
        outcome(&mut helper, waiting),
        ready(WebTransportReadyOutcome::WriteTransportWake {
            reasons: no_credit(),
        })
    );
    assert_eq!(
        lend(&mut helper, session_id, stream_id, 122, b"identity", false).verdict,
        LeaseVerdict::Accepted {
            accepted: 3,
            complete: false,
            fin_accepted: false,
        }
    );
}

#[test]
fn webtransport_write_lease_reports_exact_core_block_reasons() {
    let none = StreamSendBlockReasons::empty();
    let causes = [
        StreamSendBlockReasons {
            connection_flow_control: true,
            ..none
        },
        StreamSendBlockReasons {
            congestion_control: true,
            ..none
        },
        StreamSendBlockReasons {
            send_capacity_factor: true,
            ..none
        },
        StreamSendBlockReasons {
            stream_send_retention: true,
            ..none
        },
        StreamSendBlockReasons {
            stream_flow_control: true,
            send_capacity_factor: true,
            ..none
        },
    ];
    for (index, reasons) in causes.into_iter().enumerate() {
        let (mut helper, session_id) = accepted(webtransport_settings());
        let blocked = open_server_webtransport_bidi(&mut helper, session_id).unwrap();
        helper.driver.core.transport.hold_back(reasons);
        let state_change_reasons = StreamSendBlockReasons {
            active_path_unavailable: reasons.active_path_unavailable,
            send_capacity_factor: reasons.send_capacity_factor,
            stream_send_retention: reasons.stream_send_retention,
            ..none
        };

        let id = 100 + index as u64;
        let lease = mock_write_lease(id, b"x");
        let pointer = lease.payload.as_ptr();
        let op = helper
            .driver
            .try_write_stream_lease(session_id, blocked, lease, false)
            .unwrap();
        helper.work_loop_iter().unwrap();
        let mut outcome = lease_outcome(&mut helper, op);
        assert_eq!(
            outcome.verdict.progress(),
            WebTransportStreamWriteLeaseProgress::ExposedKnownZero
        );
        assert!(!outcome.fin);
        assert_eq!(blocked_by(&outcome), reasons);
        assert_eq!(
            helper.driver.desk.retries.get(retry_of(&outcome).op),
            Some(&Retry {
                session_id,
                stream_id: blocked,
                reasons,
            })
        );
        assert_eq!(outcome.lease.id, id);
        assert_eq!(outcome.lease.payload.as_ptr(), pointer);
        assert_eq!(mock_write_lease_log(&outcome.lease).exposures, 1);
        if reasons.retry_disposition() == StreamSendRetryDisposition::StateChangeRequired {
            for attempt in 0..2 {
                assert!(matches!(
                    outcome.verdict,
                    LeaseVerdict::Blocked { reasons: actual, .. } if actual == reasons
                ));
                assert_eq!(
                    asked(
                        &mut helper,
                        WebTransportRequest::AwaitWritable {
                            retry: retry_of(&outcome),
                        }
                    ),
                    ready(WebTransportReadyOutcome::WriteStateChangeRequired {
                        blocked_reasons: reasons,
                        state_change_reasons,
                    })
                );
                if attempt == 0 {
                    let op = helper
                        .driver
                        .try_write_stream_lease(session_id, blocked, outcome.lease, false)
                        .unwrap();
                    helper.work_loop_iter().unwrap();
                    outcome = lease_outcome(&mut helper, op);
                    assert_eq!(outcome.lease.payload.as_ptr(), pointer);
                }
            }
        } else {
            let retry = retry_of(&outcome);
            helper.driver.drop_retry(retry);
        }

        helper.driver.core.transport.hold_back(none);
        let op = helper
            .driver
            .try_write_stream_lease(session_id, blocked, outcome.lease, false)
            .unwrap();
        helper.work_loop_iter().unwrap();
        let written = lease_outcome(&mut helper, op);
        assert_eq!(
            written.verdict,
            LeaseVerdict::Accepted {
                accepted: 1,
                complete: true,
                fin_accepted: false,
            }
        );
        assert_eq!(written.lease.payload.as_ptr(), pointer);
        if reasons.stream_send_retention {
            assert_eq!(mock_write_lease_log(&written.lease).exposures, 3);
        }
        let now = stats(&mut helper);
        assert_eq!(now.write_leases, 0);
        assert_eq!(now.write_lease_retained_bytes, 0);
    }
}

#[test]
fn webtransport_exact_stream_waits_are_level_triggered_and_terminal() {
    let (mut helper, session_id) = accepted_without_credit();
    let stream_id = open_server_webtransport_bidi(&mut helper, session_id).unwrap();
    let readable = WebTransportRequest::AwaitReadable {
        session_id,
        stream_id,
    };
    let waiting = ask(&mut helper, readable);
    helper.work_loop_iter().unwrap();
    assert!(!helper.is_answered(waiting));

    assert_eq!(
        asked(
            &mut helper,
            WebTransportRequest::AwaitReadable {
                session_id,
                stream_id,
            }
        ),
        ready(WebTransportReadyOutcome::Rejected(
            WebTransportSelectionError::ResourceLimit
        ))
    );
    assert_eq!(stats(&mut helper).receive_terminal_waiters, 1);
    helper.driver.cancel(waiting);
    helper.work_loop_iter().unwrap();
    assert_eq!(stats(&mut helper).receive_terminal_waiters, 0);

    let waiting = ask(
        &mut helper,
        WebTransportRequest::AwaitReadable {
            session_id,
            stream_id,
        },
    );
    helper.work_loop_iter().unwrap();
    assert!(!helper.is_answered(waiting));
    receive_bidi(&mut helper, session_id, stream_id);
    helper
        .peer_stream_send(stream_id, b"ready".to_vec(), true)
        .unwrap();
    helper.advance_and_run_loop().unwrap();
    assert_eq!(
        outcome(&mut helper, waiting),
        ready(WebTransportReadyOutcome::Ready)
    );
    assert_eq!(
        asked(
            &mut helper,
            WebTransportRequest::AwaitReadable {
                session_id,
                stream_id,
            }
        ),
        ready(WebTransportReadyOutcome::Ready)
    );
    assert_eq!(
        asked(
            &mut helper,
            WebTransportRequest::Read {
                session_id,
                stream_id,
                max: 16,
            }
        ),
        WebTransportOutcome::Read(WebTransportStreamReadOutcome::Terminal {
            data: b"ready".to_vec(),
            terminal: WebTransportStreamReceiveTerminal::Fin,
        })
    );
    let retired = retire_receive_terminal(&mut helper, session_id, stream_id).unwrap();
    helper.work_loop_iter().unwrap();
    assert_eq!(
        outcome(&mut helper, retired),
        WebTransportOutcome::ReceiveRetired(
            WebTransportStreamReceiveTerminalRetirementOutcome::Retired {
                session_id,
                stream_id,
            }
        )
    );

    let writable_stream = open_server_webtransport_bidi(&mut helper, session_id).unwrap();
    let lease = mock_write_lease(50, b"x");
    let pointer = lease.payload.as_ptr();
    let op = helper
        .driver
        .try_write_stream_lease(session_id, writable_stream, lease, false)
        .unwrap();
    helper.work_loop_iter().unwrap();
    let blocked = lease_outcome(&mut helper, op);
    assert!(!blocked.fin);
    assert!(blocked_by(&blocked).stream_flow_control);
    assert_eq!(
        blocked_by(&blocked).retry_disposition(),
        StreamSendRetryDisposition::WaitForTransportWritable
    );
    assert_eq!(blocked.lease.payload.as_ptr(), pointer);
    let writable = ask(
        &mut helper,
        WebTransportRequest::AwaitWritable {
            retry: retry_of(&blocked),
        },
    );
    helper.work_loop_iter().unwrap();
    assert!(!helper.is_answered(writable));
    receive_bidi(&mut helper, session_id, writable_stream);
    helper.advance_and_run_loop().unwrap();
    assert_eq!(
        outcome(&mut helper, writable),
        ready(WebTransportReadyOutcome::WriteTransportWake {
            reasons: no_credit(),
        })
    );
    let op = helper
        .driver
        .try_write_stream_lease(session_id, writable_stream, blocked.lease, false)
        .unwrap();
    helper.work_loop_iter().unwrap();
    let written = lease_outcome(&mut helper, op);
    assert_eq!(
        written.verdict,
        LeaseVerdict::Accepted {
            accepted: 1,
            complete: true,
            fin_accepted: false,
        }
    );
    assert_eq!(written.lease.payload.as_ptr(), pointer);
    assert_eq!(mock_write_lease_log(&written.lease).exposures, 2);

    let reset_stream = open_server_webtransport_bidi(&mut helper, session_id).unwrap();
    receive_bidi(&mut helper, session_id, reset_stream);
    let reset = ask(
        &mut helper,
        WebTransportRequest::AwaitReadable {
            session_id,
            stream_id: reset_stream,
        },
    );
    helper.work_loop_iter().unwrap();
    assert!(!helper.is_answered(reset));
    let reset_wire = webtransport_error_to_http3(29);
    helper.peer_shutdown_write(reset_stream, reset_wire);
    helper.advance_and_run_loop().unwrap();
    assert_eq!(
        outcome(&mut helper, reset),
        ready(WebTransportReadyOutcome::Ready)
    );
    assert_eq!(
        asked(
            &mut helper,
            WebTransportRequest::Read {
                session_id,
                stream_id: reset_stream,
                max: 16,
            }
        ),
        WebTransportOutcome::Read(WebTransportStreamReadOutcome::Terminal {
            data: Vec::new(),
            terminal: WebTransportStreamReceiveTerminal::Reset {
                wire_error_code: reset_wire,
                application_error_code: Some(29),
            },
        })
    );
    let retired = retire_receive_terminal(&mut helper, session_id, reset_stream).unwrap();
    helper.work_loop_iter().unwrap();
    assert_eq!(
        outcome(&mut helper, retired),
        WebTransportOutcome::ReceiveRetired(
            WebTransportStreamReceiveTerminalRetirementOutcome::Retired {
                session_id,
                stream_id: reset_stream,
            }
        )
    );

    let stopped_stream = open_server_webtransport_bidi(&mut helper, session_id).unwrap();
    let lease = mock_write_lease(51, b"stop");
    let pointer = lease.payload.as_ptr();
    let op = helper
        .driver
        .try_write_stream_lease(session_id, stopped_stream, lease, false)
        .unwrap();
    helper.work_loop_iter().unwrap();
    let blocked = lease_outcome(&mut helper, op);
    assert!(!blocked.fin);
    assert!(blocked_by(&blocked).stream_flow_control);
    assert_eq!(blocked.lease.payload.as_ptr(), pointer);
    let stopped = ask(
        &mut helper,
        WebTransportRequest::AwaitWritable {
            retry: retry_of(&blocked),
        },
    );
    helper.work_loop_iter().unwrap();
    assert!(!helper.is_answered(stopped));
    helper.advance();
    assert!(matches!(
        helper.peer_poll(),
        Some((id, PeerEvent::WebTransportStream { .. })) if id == stopped_stream
    ));
    helper.peer_shutdown_read(stopped_stream, webtransport_error_to_http3(23));
    helper.advance_and_run_loop().unwrap();
    assert_eq!(
        outcome(&mut helper, stopped),
        ready(WebTransportReadyOutcome::ResetRequired {
            wire_error_code: webtransport_error_to_http3(23),
            application_error_code: Some(23),
        })
    );

    let op = helper
        .driver
        .try_write_stream_lease(session_id, stopped_stream, blocked.lease, false)
        .unwrap();
    helper.work_loop_iter().unwrap();
    let stopped = lease_outcome(&mut helper, op);
    assert_eq!(
        stopped.verdict,
        LeaseVerdict::ResetRequired {
            wire_error_code: webtransport_error_to_http3(23),
            application_error_code: Some(23),
        }
    );
    assert!(!stopped.fin);
    assert_eq!(stopped.lease.payload.as_ptr(), pointer);
    assert_eq!(mock_write_lease_log(&stopped.lease).exposures, 2);

    let closing = ask(
        &mut helper,
        WebTransportRequest::AwaitReadable {
            session_id,
            stream_id: stopped_stream,
        },
    );
    helper.work_loop_iter().unwrap();
    assert!(!helper.is_answered(closing));
    helper
        .driver
        .close_webtransport_session(session_id, 7, "done".to_string())
        .unwrap();
    assert_eq!(helper.process_commands(), 1);
    assert_eq!(
        outcome(&mut helper, closing),
        ready(WebTransportReadyOutcome::Rejected(
            WebTransportSelectionError::ClosingSession
        ))
    );
}

#[test]
fn webtransport_exact_stream_wait_wakes_once_on_connection_drop() {
    let (mut helper, session_id) = accepted(webtransport_settings());
    let stream_id = open_server_webtransport_bidi(&mut helper, session_id).unwrap();
    let wait = ask(
        &mut helper,
        WebTransportRequest::AwaitReadable {
            session_id,
            stream_id,
        },
    );
    helper.work_loop_iter().unwrap();
    assert!(!helper.is_answered(wait));
    helper.driver.go_away();
    assert_eq!(
        outcome(&mut helper, wait),
        ready(WebTransportReadyOutcome::Rejected(
            WebTransportSelectionError::ConnectionClosed
        ))
    );
    assert!(!helper.is_answered(wait));
}

#[test]
fn webtransport_datagram_readable_wait_is_level_and_terminal_safe() {
    let (mut helper, session_id) = accepted(webtransport_settings());
    let waiting = ask(&mut helper, WebTransportRequest::AwaitDatagram { session_id });
    helper.work_loop_iter().unwrap();
    assert!(!helper.is_answered(waiting));

    helper.peer_dgram_send(b"\0ready".to_vec());
    helper.advance_and_run_loop().unwrap();
    assert_eq!(
        outcome(&mut helper, waiting),
        ready(WebTransportReadyOutcome::Ready)
    );
    assert_eq!(
        asked(&mut helper, WebTransportRequest::AwaitDatagram { session_id }),
        ready(WebTransportReadyOutcome::Ready)
    );
    assert_eq!(
        asked(&mut helper, WebTransportRequest::ReceiveDatagram { session_id }),
        WebTransportOutcome::DatagramRead(WebTransportDatagramReadOutcome::Datagram(
            b"ready".to_vec()
        ))
    );

    let terminal = ask(&mut helper, WebTransportRequest::AwaitDatagram { session_id });
    helper.work_loop_iter().unwrap();
    assert!(!helper.is_answered(terminal));
    assert_eq!(
        asked(&mut helper, WebTransportRequest::AwaitDatagram { session_id }),
        ready(WebTransportReadyOutcome::ResourceLimit)
    );

    helper.peer_send_body(session_id, Vec::new(), true).unwrap();
    helper.advance_and_run_loop().unwrap();
    assert!(expect_session_terminated(
        &mut helper,
        session_id,
        WebTransportSessionCloseReason::Clean,
    ));
    assert_eq!(
        outcome(&mut helper, terminal),
        ready(WebTransportReadyOutcome::Rejected(
            WebTransportSelectionError::TerminalSession
        ))
    );
}

#[test]
fn webtransport_datagram_send_wait_survives_capacity_race() {
    let (mut helper, session_id) = accept(DriverTestHelper::with_pipe_and_http3_settings(
        Role::Server,
        single_dgram_queue_webtransport_pipe(),
        webtransport_settings(),
    ));
    let sent = WebTransportOutcome::DatagramSent(WebTransportDatagramSendOutcome::Accepted);
    assert_eq!(
        asked(
            &mut helper,
            WebTransportRequest::SendDatagram {
                session_id,
                datagram: b"fill".to_vec(),
            }
        ),
        sent
    );
    assert!(!helper.driver.core.transport.has_dgram_room());

    let waiting = ask(
        &mut helper,
        WebTransportRequest::AwaitDatagramRoom { session_id },
    );
    helper.work_loop_iter().unwrap();
    assert!(!helper.is_answered(waiting));
    assert_eq!(
        asked(
            &mut helper,
            WebTransportRequest::AwaitDatagramRoom { session_id }
        ),
        ready(WebTransportReadyOutcome::ResourceLimit)
    );

    assert!(!helper.driver.is_wait_over());
    helper.advance();
    assert!(helper.driver.core.transport.has_dgram_room());
    assert!(helper.driver.is_wait_over());
    helper.work_loop_iter().unwrap();
    assert!(!helper.driver.is_wait_over());
    assert_eq!(
        outcome(&mut helper, waiting),
        ready(WebTransportReadyOutcome::Ready)
    );
    assert_eq!(
        asked(
            &mut helper,
            WebTransportRequest::AwaitDatagramRoom { session_id }
        ),
        ready(WebTransportReadyOutcome::Ready)
    );

    assert_eq!(
        asked(
            &mut helper,
            WebTransportRequest::SendDatagram {
                session_id,
                datagram: b"refill".to_vec(),
            }
        ),
        sent
    );
    let terminal = ask(
        &mut helper,
        WebTransportRequest::AwaitDatagramRoom { session_id },
    );
    helper.work_loop_iter().unwrap();
    assert!(!helper.is_answered(terminal));
    helper.peer_send_body(session_id, Vec::new(), true).unwrap();
    helper.work_loop_iter().unwrap();
    assert!(expect_session_terminated(
        &mut helper,
        session_id,
        WebTransportSessionCloseReason::Clean,
    ));
    assert_eq!(
        outcome(&mut helper, terminal),
        ready(WebTransportReadyOutcome::Rejected(
            WebTransportSelectionError::TerminalSession
        ))
    );
}

/// The sample that was asked for last.
fn sample(helper: &mut DriverTestHelper) -> WebTransportLiveConnectionSnapshot {
    match helper.driver.take_live_snapshot() {
        Some(SnapshotOutcome::Sampled(sample)) => sample,
        other => panic!("unexpected outcome: {other:?}"),
    }
}

#[test]
fn webtransport_live_connection_snapshot_is_bounded_and_monotonic() {
    let mut helper = webtransport_helper(webtransport_settings());
    helper.driver.core.transport.set_path(PathSnapshot {
        path_generation: 3,
        smoothed_rtt_micros: 333_000,
        congestion_window_bytes: 13_500,
        bytes_in_flight: 1_200,
    });
    start_webtransport_driver(&mut helper).unwrap();

    assert_eq!(helper.driver.live_connection_snapshot(), None);
    assert_eq!(
        helper.driver.live_connection_snapshot(),
        Some(SnapshotOutcome::Saturated)
    );
    assert_eq!(helper.driver.requests.len(), 1);
    assert_eq!(helper.driver.take_live_snapshot(), None);
    helper.work_loop_iter().unwrap();
    let first = sample(&mut helper);
    assert_eq!(first.path, helper.driver.core.transport.path());
    assert_eq!(first.path.smoothed_rtt_micros, 333_000);
    assert_eq!(first.sample_sequence, 0);

    assert_eq!(helper.driver.live_connection_snapshot(), None);
    helper.work_loop_iter().unwrap();
    let second = sample(&mut helper);
    assert_eq!(second.sample_sequence, 1);
    assert_eq!(second.path.path_generation, first.path.path_generation);

    let now = stats(&mut helper);
    assert_eq!(now.live_connection_snapshot_requests, 0);
    assert_eq!(now.max_live_connection_snapshot_requests, 1);
    assert_eq!(now.live_connection_snapshot_saturation_total, 1);
    assert_eq!(now.live_connection_snapshot_cancellation_total, 0);
    assert_eq!(now.live_connection_snapshot_sample_total, 2);
    assert!(!std::mem::needs_drop::<WebTransportLiveConnectionSnapshot>());
}

/// A sample tells of the path that is in use when it is taken.
#[test]
fn a_sample_follows_the_path() {
    let mut helper = webtransport_helper(webtransport_settings());
    start_webtransport_driver(&mut helper).unwrap();
    assert_eq!(helper.driver.live_connection_snapshot(), None);
    let moved = PathSnapshot {
        path_generation: 1,
        smoothed_rtt_micros: 20_000,
        congestion_window_bytes: 27_000,
        bytes_in_flight: 0,
    };
    helper.driver.core.transport.set_path(moved);
    helper.work_loop_iter().unwrap();
    assert_eq!(
        sample(&mut helper),
        WebTransportLiveConnectionSnapshot {
            sample_sequence: 0,
            path: moved,
        }
    );
}

#[test]
fn webtransport_live_connection_snapshot_cancellation_is_race_free() {
    let mut helper = webtransport_helper(webtransport_settings());
    start_webtransport_driver(&mut helper).unwrap();

    assert_eq!(helper.driver.live_connection_snapshot(), None);
    assert_eq!(
        helper.driver.cancel_live_snapshot(),
        SnapshotOutcome::Cancelled
    );
    assert_eq!(
        helper.driver.live_connection_snapshot(),
        Some(SnapshotOutcome::Saturated)
    );
    helper.work_loop_iter().unwrap();

    assert_eq!(helper.driver.live_connection_snapshot(), None);
    helper.work_loop_iter().unwrap();
    assert_eq!(
        helper.driver.cancel_live_snapshot(),
        SnapshotOutcome::Cancelled
    );

    assert_eq!(helper.driver.live_connection_snapshot(), None);
    helper.work_loop_iter().unwrap();
    assert_eq!(sample(&mut helper).sample_sequence, 1);
    let now = stats(&mut helper);
    assert_eq!(now.live_connection_snapshot_requests, 0);
    assert_eq!(now.live_connection_snapshot_saturation_total, 1);
    assert_eq!(now.live_connection_snapshot_cancellation_total, 2);
    assert_eq!(now.live_connection_snapshot_sample_total, 2);
}

#[test]
fn webtransport_live_connection_snapshot_closure_is_terminal() {
    let mut helper = webtransport_helper(webtransport_settings());
    start_webtransport_driver(&mut helper).unwrap();
    assert_eq!(helper.driver.live_connection_snapshot(), None);
    helper.work_loop_iter().unwrap();
    drop_connection(&mut helper);
    assert_eq!(
        helper.driver.take_live_snapshot(),
        Some(SnapshotOutcome::ConnectionClosed)
    );
    assert_eq!(
        helper.driver.live_connection_snapshot(),
        Some(SnapshotOutcome::ConnectionClosed)
    );

    let mut helper = webtransport_helper(webtransport_settings());
    assert_eq!(helper.driver.live_connection_snapshot(), None);
    helper.driver.go_away();
    assert_eq!(
        helper.driver.take_live_snapshot(),
        Some(SnapshotOutcome::DriverGone)
    );
    assert_eq!(
        helper.driver.live_connection_snapshot(),
        Some(SnapshotOutcome::DriverGone)
    );
}

#[test]
fn webtransport_live_connection_snapshot_reports_lane_saturation() {
    let mut settings = webtransport_settings();
    settings.webtransport_command_capacity = 1;
    let mut helper = webtransport_helper(settings);
    start_webtransport_driver(&mut helper).unwrap();

    let queued = ask(&mut helper, WebTransportRequest::RetentionStats);
    assert_eq!(helper.driver.requests.len(), 1);
    assert_eq!(
        helper.driver.live_connection_snapshot(),
        Some(SnapshotOutcome::Saturated)
    );
    helper.work_loop_iter().unwrap();
    assert!(matches!(
        outcome(&mut helper, queued),
        WebTransportOutcome::Stats(_)
    ));

    assert_eq!(helper.driver.live_connection_snapshot(), None);
    helper.work_loop_iter().unwrap();
    assert!(matches!(
        helper.driver.take_live_snapshot(),
        Some(SnapshotOutcome::Sampled(_))
    ));
    let now = stats(&mut helper);
    assert_eq!(now.live_connection_snapshot_saturation_total, 1);
    assert_eq!(now.live_connection_snapshot_requests, 0);
}

/// The final statistics, which nothing holds back.
fn take_final(helper: &mut DriverTestHelper) -> WebTransportRetentionStats {
    let last = match helper.driver.try_take_terminal_retention() {
        WebTransportTerminalRetentionOutcome::Taken(last) => last,
        other => panic!("unexpected outcome: {other:?}"),
    };
    assert!(assert_terminal_retention_current_zero(&last));
    last
}

#[test]
fn webtransport_terminal_retention_preserves_snapshot_totals() {
    let mut helper = webtransport_helper(webtransport_settings());
    start_webtransport_driver(&mut helper).unwrap();

    assert_eq!(helper.driver.live_connection_snapshot(), None);
    assert_eq!(
        helper.driver.live_connection_snapshot(),
        Some(SnapshotOutcome::Saturated)
    );
    helper.work_loop_iter().unwrap();
    assert!(matches!(
        helper.driver.take_live_snapshot(),
        Some(SnapshotOutcome::Sampled(_))
    ));
    assert_eq!(helper.driver.live_connection_snapshot(), None);
    assert_eq!(
        helper.driver.cancel_live_snapshot(),
        SnapshotOutcome::Cancelled
    );

    drop_connection(&mut helper);
    helper.driver.drop_connection_owner();
    let last = take_final(&mut helper);
    assert_eq!(last.max_live_connection_snapshot_requests, 1);
    assert_eq!(last.live_connection_snapshot_saturation_total, 1);
    assert_eq!(last.live_connection_snapshot_cancellation_total, 1);
    assert_eq!(last.live_connection_snapshot_sample_total, 1);
}

#[test]
fn webtransport_terminal_retention_follows_event_and_core_teardown() {
    let mut settings = webtransport_settings();
    settings.webtransport_command_capacity = 1;
    let mut helper = webtransport_helper(settings);
    assert_eq!(accept_webtransport_session(&mut helper), Some(0));
    let session_id = 0;

    let queued = helper
        .driver
        .try_write_stream_lease(session_id, 400, mock_write_lease(500, b"queued"), false)
        .unwrap();
    let full = helper
        .driver
        .try_write_stream_lease(session_id, 404, mock_write_lease(501, b"full"), false)
        .unwrap_err();
    assert_eq!(full.verdict, LeaseVerdict::QueueFull);

    drop_connection(&mut helper);
    assert_eq!(helper.ask(WebTransportRequest::RetentionStats), None);
    assert!(expect_session_terminated(
        &mut helper,
        session_id,
        WebTransportSessionCloseReason::ConnectionClosed,
    ));
    assert_eq!(
        helper.driver.try_take_terminal_retention(),
        WebTransportTerminalRetentionOutcome::Early(WebTransportTerminalRetentionPending {
            runtime_settled: true,
            connection_owner_attached: true,
            connection_owner_dropped: false,
            write_leases: 1,
            write_lease_retained_bytes: 6,
        })
    );

    helper.driver.drop_connection_owner();
    assert!(matches!(
        helper.driver.try_take_terminal_retention(),
        WebTransportTerminalRetentionOutcome::Early(_)
    ));
    helper.driver.cancel(queued);
    let last = take_final(&mut helper);
    assert_eq!(last.write_lease_admitted_total, 1);
    assert_eq!(last.write_lease_queue_full_total, 1);
    assert_eq!(last.write_lease_abandoned_unexposed_total, 1);
    assert_eq!(helper.driver.take_dropped().len(), 1);
    assert_eq!(
        helper.driver.try_take_terminal_retention(),
        WebTransportTerminalRetentionOutcome::AlreadyTaken
    );
}

#[test]
fn webtransport_terminal_retention_survives_event_lane_and_driver_loss() {
    let mut helper = webtransport_helper(webtransport_settings());
    start_webtransport_driver(&mut helper).unwrap();
    helper.drop_event_receiver();
    let mut metrics = CloseMetrics::new();
    helper
        .driver
        .on_conn_close(&mut metrics, Err(H3ConnectionError::PostAcceptTimeout));
    helper.driver.drop_connection_owner();
    take_final(&mut helper);
}

#[test]
fn webtransport_terminal_retention_survives_service_drop() {
    let mut helper = webtransport_helper(webtransport_settings());
    assert!(matches!(
        helper.driver.try_take_terminal_retention(),
        WebTransportTerminalRetentionOutcome::Early(WebTransportTerminalRetentionPending {
            runtime_settled: false,
            ..
        })
    ));
    helper.driver.go_away();
    assert!(matches!(
        helper.driver.try_take_terminal_retention(),
        WebTransportTerminalRetentionOutcome::Early(WebTransportTerminalRetentionPending {
            runtime_settled: true,
            connection_owner_dropped: false,
            ..
        })
    ));
    helper.driver.drop_connection_owner();
    assert!(matches!(
        helper.driver.try_take_terminal_retention(),
        WebTransportTerminalRetentionOutcome::Taken(_)
    ));
}

#[test]
fn webtransport_terminal_retention_waits_for_retry_permission() {
    let mut helper = DriverTestHelper::with_pipe_and_http3_settings(
        Role::Server,
        exact_prefix_capacity_webtransport_pipe(),
        webtransport_settings(),
    );
    assert_eq!(accept_webtransport_session(&mut helper), Some(0));
    let session_id = 0;
    let stream_id = open_server_webtransport_bidi(&mut helper, session_id).unwrap();
    let blocked = lend(&mut helper, session_id, stream_id, 600, b"blocked", false);
    let retry = retry_of(&blocked);

    drop_connection(&mut helper);
    helper.driver.drop_connection_owner();
    let pending = match helper.driver.try_take_terminal_retention() {
        WebTransportTerminalRetentionOutcome::Early(pending) => pending,
        other => panic!("unexpected outcome: {other:?}"),
    };
    assert_eq!(pending.write_leases, 1);
    assert_eq!(pending.write_lease_retained_bytes, 0);
    helper.driver.drop_retry(retry);
    take_final(&mut helper);
}

#[test]
fn webtransport_terminal_retention_survives_transport_failure() {
    let mut helper = webtransport_helper(webtransport_settings());
    start_webtransport_driver(&mut helper).unwrap();
    let mut metrics = CloseMetrics::new();
    helper
        .driver
        .on_conn_close(&mut metrics, Err(H3ConnectionError::TransportFailed));
    assert!(matches!(
        helper.recv_event(),
        Some(DriverEvent::Core(H3Event::ConnectionError))
    ));
    helper.driver.drop_connection_owner();
    take_final(&mut helper);
}

#[test]
fn webtransport_terminal_retention_survives_event_lane_overload() {
    let mut settings = webtransport_settings();
    settings.event_capacity = 1;
    let mut helper = webtransport_helper(settings);
    start_webtransport_driver(&mut helper).unwrap();
    helper
        .driver
        .core
        .events
        .send(DriverEvent::Core(H3Event::IncomingSettings))
        .unwrap();
    assert_eq!(
        helper
            .driver
            .core
            .events
            .send(DriverEvent::Core(H3Event::IncomingSettings)),
        Err(H3ConnectionError::EventQueueOverloaded)
    );
    drop_connection(&mut helper);
    helper.driver.drop_connection_owner();
    take_final(&mut helper);
}
