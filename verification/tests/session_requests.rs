use h3_driver::client_side_driver;
use h3_driver::conn_close::CloseMetrics;
use h3_driver::driver::desk::CommitFault;
use h3_driver::driver::events::{DriverEvent, H3Event};
use h3_driver::driver::helper::DriverTestHelper;
use h3_driver::headers::Header;
use h3_driver::peer_log::{PeerEvent, RawRead};
use h3_driver::request_stream::{FrameAdmission, OutboundFrame};
use h3_driver::server_side_driver::{
    accept_pending_webtransport_session, accept_webtransport_session,
    assert_client_no_raw_h3_dgram, assert_client_raw_h3_dgram, assert_next_client_raw_h3_dgram,
    assert_no_driver_event, backpressured_webtransport_pipe,
    exact_prefix_capacity_webtransport_pipe, expect_associated_stream, expect_session_rejected,
    expect_session_terminated, open_pending_webtransport_session, open_server_webtransport_bidi,
    open_server_webtransport_uni, prefix_backpressured_webtransport_pipe,
    receive_server_webtransport_stream, release_server_webtransport_stream_credit,
    retire_receive_terminal, retire_send_terminal, send_response_status,
    single_server_bidi_webtransport_pipe, single_server_stream_each_direction_webtransport_pipe,
    start_webtransport_driver, wait_for_send_terminal, wait_for_session_terminal,
    webtransport_helper, webtransport_retention_stats, webtransport_settings,
    webtransport_stream_data,
};
use h3_driver::settings::Http3Settings;
use h3_driver::transport::{Role, DGRAM_MAX_WRITABLE_LEN};
use h3_driver::wire::capsule::MAX_CLOSE_MESSAGE_LEN;
use h3_driver::wire::datagram::dgram_buf;
use h3_driver::wire::error_code::webtransport_error_to_http3;
use h3_driver::wire::stream_prefix::{
    WebTransportStreamDirection, WEBTRANSPORT_BIDI_STREAM_TYPE, WEBTRANSPORT_UNI_STREAM_TYPE,
};
use h3_driver::wt::datagrams::PendingDatagram;
use h3_driver::wt::requests::{
    WebTransportDatagramReadOutcome, WebTransportDatagramSendOutcome,
    WebTransportOpenStreamOutcome, WebTransportOutcome, WebTransportRequest,
    WebTransportSessionTerminalOutcome, WebTransportStreamControlOutcome,
    WebTransportStreamReadOutcome, WebTransportStreamReceiveTerminalRetirementOutcome,
    WebTransportStreamWriteOutcome,
};
use h3_driver::wt::retention::WebTransportRetentionStats;
use h3_driver::wt::stream_ends::{
    WebTransportStreamReceiveTerminal, WebTransportStreamSendTerminalOutcome,
};
use h3_driver::wt::write_lease::{
    mock_write_lease, mock_write_lease_log, LeaseVerdict, WebTransportStreamWriteLeaseProgress,
};
use h3_driver::wt::types::{
    WebTransportSelectionError, WebTransportSessionCloseReason, WebTransportSessionEvent,
    WT_BUFFERED_STREAM_REJECTED, WT_SESSION_GONE,
};

/// Starts the driver and has the session of the peer accepted.
fn accept(mut helper: DriverTestHelper) -> (DriverTestHelper, u64) {
    start_webtransport_driver(&mut helper).unwrap();
    let session_id = open_pending_webtransport_session(&mut helper).unwrap();
    assert!(accept_pending_webtransport_session(&mut helper, session_id));
    (helper, session_id)
}

fn accepted(settings: Http3Settings) -> (DriverTestHelper, u64) {
    accept(webtransport_helper(settings))
}

fn ask(helper: &mut DriverTestHelper, request: WebTransportRequest) -> u64 {
    helper.ask(request).unwrap()
}

/// The answer to a request, which must be there.
fn outcome(helper: &mut DriverTestHelper, op: u64) -> WebTransportOutcome {
    helper.take_answer(op).expect("the request has no answer")
}

/// Asks, runs one turn and takes the answer.
fn asked(helper: &mut DriverTestHelper, request: WebTransportRequest) -> WebTransportOutcome {
    let op = ask(helper, request);
    helper.work_loop_iter().unwrap();
    outcome(helper, op)
}

fn open(session_id: u64, direction: WebTransportStreamDirection) -> WebTransportRequest {
    WebTransportRequest::Open {
        session_id,
        direction,
    }
}

fn open_bidi(session_id: u64) -> WebTransportRequest {
    open(session_id, WebTransportStreamDirection::Bidi)
}

fn opened(stream_id: u64) -> WebTransportOutcome {
    WebTransportOutcome::Open(WebTransportOpenStreamOutcome::Opened { stream_id })
}

fn open_rejected(error: WebTransportSelectionError) -> WebTransportOutcome {
    WebTransportOutcome::Open(WebTransportOpenStreamOutcome::Rejected(error))
}

fn send_end(outcome: WebTransportStreamSendTerminalOutcome) -> WebTransportOutcome {
    WebTransportOutcome::SendEnd(outcome)
}

fn applied() -> WebTransportOutcome {
    WebTransportOutcome::Control(WebTransportStreamControlOutcome::Applied)
}

fn session_end(outcome: WebTransportSessionTerminalOutcome) -> WebTransportOutcome {
    WebTransportOutcome::SessionEnd(outcome)
}

/// Writes, runs one turn and takes the outcome.
fn write(
    helper: &mut DriverTestHelper,
    session_id: u64,
    stream_id: u64,
    data: &[u8],
    fin: bool,
) -> WebTransportStreamWriteOutcome {
    let op = helper
        .driver
        .try_write_stream(session_id, stream_id, data.to_vec(), fin)
        .unwrap();
    helper.work_loop_iter().unwrap();
    match outcome(helper, op) {
        WebTransportOutcome::Write(outcome) => outcome,
        other => panic!("unexpected answer: {other:?}"),
    }
}

fn read(
    helper: &mut DriverTestHelper,
    session_id: u64,
    stream_id: u64,
    max: usize,
) -> WebTransportStreamReadOutcome {
    match asked(
        helper,
        WebTransportRequest::Read {
            session_id,
            stream_id,
            max,
        },
    ) {
        WebTransportOutcome::Read(outcome) => outcome,
        other => panic!("unexpected answer: {other:?}"),
    }
}

fn stats(helper: &mut DriverTestHelper) -> WebTransportRetentionStats {
    webtransport_retention_stats(helper).unwrap()
}

/// The peer refuses a stream with an application error. Returns the wire code.
fn peer_stop(helper: &mut DriverTestHelper, stream_id: u64, application_error: u32) -> u64 {
    let wire_error = webtransport_error_to_http3(application_error);
    helper.peer_shutdown_read(stream_id, wire_error);
    wire_error
}

fn drop_connection(helper: &mut DriverTestHelper) {
    let mut metrics = CloseMetrics::new();
    helper.driver.on_conn_close(&mut metrics, Ok(()));
}

fn receive_bidi(helper: &mut DriverTestHelper, session_id: u64, stream_id: u64) {
    assert!(receive_server_webtransport_stream(
        helper,
        session_id,
        stream_id,
        WebTransportStreamDirection::Bidi,
    ));
}

fn bidi_left(helper: &DriverTestHelper) -> u64 {
    helper
        .driver
        .core
        .transport
        .streams_left(WebTransportStreamDirection::Bidi)
}

fn owns(helper: &DriverTestHelper, stream_id: u64) -> bool {
    helper
        .driver
        .core
        .session
        .as_ref()
        .unwrap()
        .owns_stream(stream_id)
}

#[test]
fn client_selected_streams_use_role_correct_physical_ids() {
    let mut helper = client_side_driver::webtransport_helper();
    client_side_driver::start_webtransport_driver(&mut helper).unwrap();
    let session_id =
        client_side_driver::open_pending_webtransport_session(&mut helper, 71).unwrap();
    client_side_driver::peer_response_status(&mut helper, session_id, 200);
    helper.advance_and_run_loop().unwrap();
    assert!(client_side_driver::expect_session_event(
        &mut helper,
        &WebTransportSessionEvent::Accepted { session_id },
    ));

    assert_eq!(asked(&mut helper, open_bidi(session_id)), opened(4));
    helper.advance();
    assert_eq!(
        helper.peer_poll(),
        Some((
            4,
            PeerEvent::WebTransportStream {
                session_id,
                direction: WebTransportStreamDirection::Bidi,
                prefix_len: 3,
            }
        ))
    );

    assert_eq!(
        write(&mut helper, session_id, 4, b"client payload", false),
        WebTransportStreamWriteOutcome::Accepted {
            accepted: 14,
            remaining: None,
            fin_accepted: false,
        }
    );
    helper.advance();
    assert!(matches!(
        helper.peer_stream_recv(4),
        RawRead::Data { data, fin: false } if data == b"client payload"
    ));

    let uni_stream_id = open_server_webtransport_uni(&mut helper, session_id).unwrap();
    assert_eq!(uni_stream_id & 0x3, 2);
    helper.advance();
    assert_eq!(
        helper.peer_poll(),
        Some((
            uni_stream_id,
            PeerEvent::WebTransportStream {
                session_id,
                direction: WebTransportStreamDirection::Uni,
                prefix_len: 3,
            }
        ))
    );
    assert_eq!(
        write(
            &mut helper,
            session_id,
            uni_stream_id,
            b"client uni payload",
            true
        ),
        WebTransportStreamWriteOutcome::Accepted {
            accepted: 18,
            remaining: None,
            fin_accepted: true,
        }
    );
    helper.advance();
    assert!(matches!(
        helper.peer_stream_recv(uni_stream_id),
        RawRead::Data { data, fin: true } if data == b"client uni payload"
    ));
}

#[test]
fn webtransport_selected_server_bidi_stream_uses_exact_quic_id() {
    let mut settings = webtransport_settings();
    settings.webtransport_max_stream_write_bytes = 16;
    let (mut helper, session_id) = accepted(settings);

    assert_eq!(
        helper
            .driver
            .try_write_stream(session_id, 1, b"seventeen payload".to_vec(), true),
        Err(WebTransportStreamWriteOutcome::TooLarge {
            max: 16,
            data: b"seventeen payload".to_vec(),
            fin: true,
        })
    );
    assert_eq!(helper.driver.requests.len(), 0);

    assert_eq!(asked(&mut helper, open_bidi(session_id)), opened(1));
    receive_bidi(&mut helper, session_id, 1);

    assert_eq!(
        write(&mut helper, session_id, 1, b"selected payload", true),
        WebTransportStreamWriteOutcome::Accepted {
            accepted: 16,
            remaining: None,
            fin_accepted: true,
        }
    );
    assert_eq!(
        write(&mut helper, session_id, 1, b"after fin", false),
        WebTransportStreamWriteOutcome::Closed {
            data: b"after fin".to_vec(),
            fin: false,
        }
    );

    helper.advance();
    assert!(matches!(
        helper.peer_stream_recv(1),
        RawRead::Data { data, fin: true } if data == b"selected payload"
    ));
    assert_eq!(helper.driver.core.flows.len(), 0);
}

#[test]
fn webtransport_send_terminal_stop_is_latched_before_and_after_wait() {
    let (mut helper, session_id) = accepted(webtransport_settings());

    let before = open_server_webtransport_bidi(&mut helper, session_id).unwrap();
    receive_bidi(&mut helper, session_id, before);
    let mapped_wire = peer_stop(&mut helper, before, 19);
    helper.advance_and_run_loop().unwrap();

    for _ in 0..2 {
        let wait = wait_for_send_terminal(&mut helper, session_id, before).unwrap();
        helper.work_loop_iter().unwrap();
        assert_eq!(
            outcome(&mut helper, wait),
            send_end(WebTransportStreamSendTerminalOutcome::Stopped {
                stream_id: before,
                wire_error_code: mapped_wire,
                application_error_code: Some(19),
            })
        );
    }

    let after = open_server_webtransport_bidi(&mut helper, session_id).unwrap();
    receive_bidi(&mut helper, session_id, after);
    let wait = wait_for_send_terminal(&mut helper, session_id, after).unwrap();
    helper.work_loop_iter().unwrap();
    assert!(!helper.driver.is_answered(wait));

    let grease_wire = webtransport_error_to_http3(29) + 1;
    helper.peer_shutdown_read(after, grease_wire);
    helper.advance_and_run_loop().unwrap();
    assert_eq!(
        outcome(&mut helper, wait),
        send_end(WebTransportStreamSendTerminalOutcome::Stopped {
            stream_id: after,
            wire_error_code: grease_wire,
            application_error_code: None,
        })
    );
}

#[test]
fn webtransport_send_terminal_retirement_is_latched_and_reclaims_state() {
    let (mut helper, session_id) = accepted(webtransport_settings());

    // Retirement settles a pending wait and suppresses a later refusal.
    let retire_first = open_server_webtransport_bidi(&mut helper, session_id).unwrap();
    receive_bidi(&mut helper, session_id, retire_first);
    let pending = wait_for_send_terminal(&mut helper, session_id, retire_first).unwrap();
    helper.work_loop_iter().unwrap();
    assert!(!helper.driver.is_answered(pending));
    let retirement = retire_send_terminal(&mut helper, session_id, retire_first).unwrap();
    helper.work_loop_iter().unwrap();
    let retired = WebTransportStreamSendTerminalOutcome::Retired {
        session_id,
        stream_id: retire_first,
    };
    assert_eq!(outcome(&mut helper, pending), send_end(retired));
    assert_eq!(outcome(&mut helper, retirement), send_end(retired));

    peer_stop(&mut helper, retire_first, 71);
    helper.advance_and_run_loop().unwrap();
    let now = stats(&mut helper);
    assert_eq!(now.send_terminal_waiters, 0);
    assert_eq!(now.send_terminal_states, 0);
    assert_eq!(now.send_terminal_overloaded_sessions, 0);

    // Retirement can be repeated, and a new wait sees it.
    let again = retire_send_terminal(&mut helper, session_id, retire_first).unwrap();
    helper.work_loop_iter().unwrap();
    assert_eq!(outcome(&mut helper, again), send_end(retired));
    let again = wait_for_send_terminal(&mut helper, session_id, retire_first).unwrap();
    helper.work_loop_iter().unwrap();
    assert_eq!(outcome(&mut helper, again), send_end(retired));

    // A refusal that came first is kept until retirement.
    let stop_first = open_server_webtransport_bidi(&mut helper, session_id).unwrap();
    receive_bidi(&mut helper, session_id, stop_first);
    let stop_wire = peer_stop(&mut helper, stop_first, 73);
    helper.advance_and_run_loop().unwrap();
    let wait = wait_for_send_terminal(&mut helper, session_id, stop_first).unwrap();
    helper.work_loop_iter().unwrap();
    assert_eq!(
        outcome(&mut helper, wait),
        send_end(WebTransportStreamSendTerminalOutcome::Stopped {
            stream_id: stop_first,
            wire_error_code: stop_wire,
            application_error_code: Some(73),
        })
    );
    assert_eq!(stats(&mut helper).send_terminal_states, 1);

    let retirement = retire_send_terminal(&mut helper, session_id, stop_first).unwrap();
    helper.work_loop_iter().unwrap();
    assert_eq!(
        outcome(&mut helper, retirement),
        send_end(WebTransportStreamSendTerminalOutcome::Retired {
            session_id,
            stream_id: stop_first,
        })
    );
    assert_eq!(stats(&mut helper).send_terminal_states, 0);
}

#[test]
fn webtransport_send_terminal_waits_through_blocking_and_idle_turns() {
    let (mut helper, session_id) = accept(DriverTestHelper::with_pipe_and_http3_settings(
        Role::Server,
        exact_prefix_capacity_webtransport_pipe(),
        webtransport_settings(),
    ));
    let stream_id = open_server_webtransport_bidi(&mut helper, session_id).unwrap();
    // The prefix took all the credit.
    assert_eq!(helper.driver.core.transport.credit(stream_id), 0);
    receive_bidi(&mut helper, session_id, stream_id);

    let wait = wait_for_send_terminal(&mut helper, session_id, stream_id).unwrap();
    helper.work_loop_iter().unwrap();
    assert!(!helper.driver.is_answered(wait));
    let before = stats(&mut helper);
    for _ in 0..32 {
        helper.work_loop_iter().unwrap();
    }
    let after = stats(&mut helper);
    assert_eq!(
        after.send_terminal_waiter_work_total,
        before.send_terminal_waiter_work_total
    );
    assert_eq!(after.send_terminal_waiters, 1);

    let wire_error = peer_stop(&mut helper, stream_id, 31);
    helper.advance_and_run_loop().unwrap();
    assert_eq!(
        outcome(&mut helper, wait),
        send_end(WebTransportStreamSendTerminalOutcome::Stopped {
            stream_id,
            wire_error_code: wire_error,
            application_error_code: Some(31),
        })
    );

    let (mut helper, session_id) = accepted(webtransport_settings());
    let stream_id = open_server_webtransport_uni(&mut helper, session_id).unwrap();
    assert!(receive_server_webtransport_stream(
        &mut helper,
        session_id,
        stream_id,
        WebTransportStreamDirection::Uni,
    ));
    let wait = wait_for_send_terminal(&mut helper, session_id, stream_id).unwrap();
    helper.work_loop_iter().unwrap();
    assert!(!helper.driver.is_answered(wait));
    helper.peer_shutdown_read(stream_id, wire_error);
    helper.advance_and_run_loop().unwrap();
    assert!(matches!(
        outcome(&mut helper, wait),
        WebTransportOutcome::SendEnd(WebTransportStreamSendTerminalOutcome::Stopped {
            stream_id: actual,
            ..
        }) if actual == stream_id
    ));
}

#[test]
fn webtransport_send_terminal_cancellation_and_bounds_are_deterministic() {
    let mut settings = webtransport_settings();
    settings.webtransport_max_send_terminal_waiters = 1;
    settings.webtransport_max_send_terminal_waiters_per_session = 1;
    let (mut helper, session_id) = accepted(settings);
    let first = open_server_webtransport_bidi(&mut helper, session_id).unwrap();
    receive_bidi(&mut helper, session_id, first);
    let second = open_server_webtransport_bidi(&mut helper, session_id).unwrap();
    receive_bidi(&mut helper, session_id, second);

    let cancelled = wait_for_send_terminal(&mut helper, session_id, first).unwrap();
    helper.work_loop_iter().unwrap();
    let saturated = wait_for_send_terminal(&mut helper, session_id, second).unwrap();
    helper.work_loop_iter().unwrap();
    let limit = send_end(WebTransportStreamSendTerminalOutcome::Rejected(
        WebTransportSelectionError::ResourceLimit,
    ));
    assert_eq!(outcome(&mut helper, saturated), limit);

    helper.driver.cancel(cancelled);
    let admitted = wait_for_send_terminal(&mut helper, session_id, second).unwrap();
    helper.work_loop_iter().unwrap();
    assert!(!helper.driver.is_answered(admitted));

    let first_wire = peer_stop(&mut helper, first, 41);
    helper.advance_and_run_loop().unwrap();
    let second_wire = peer_stop(&mut helper, second, 43);
    helper.advance_and_run_loop().unwrap();
    assert_eq!(
        outcome(&mut helper, admitted),
        send_end(WebTransportStreamSendTerminalOutcome::Stopped {
            stream_id: second,
            wire_error_code: second_wire,
            application_error_code: Some(43),
        })
    );

    let reregistered = wait_for_send_terminal(&mut helper, session_id, first).unwrap();
    helper.work_loop_iter().unwrap();
    assert_eq!(
        outcome(&mut helper, reregistered),
        send_end(WebTransportStreamSendTerminalOutcome::Stopped {
            stream_id: first,
            wire_error_code: first_wire,
            application_error_code: Some(41),
        })
    );
    let overloaded = wait_for_send_terminal(&mut helper, session_id, second).unwrap();
    helper.work_loop_iter().unwrap();
    assert_eq!(outcome(&mut helper, overloaded), limit);

    let now = stats(&mut helper);
    assert_eq!(now.send_terminal_waiters, 0);
    assert_eq!(now.send_terminal_states, 1);
    assert_eq!(now.send_terminal_overloaded_sessions, 1);
    assert_eq!(now.send_terminal_waiter_saturation_total, 1);
    assert_eq!(now.send_terminal_state_saturation_total, 1);

    let retire = retire_send_terminal(&mut helper, session_id, second).unwrap();
    helper.work_loop_iter().unwrap();
    assert_eq!(
        outcome(&mut helper, retire),
        send_end(WebTransportStreamSendTerminalOutcome::Retired {
            session_id,
            stream_id: second,
        })
    );
    let now = stats(&mut helper);
    assert_eq!(now.send_terminal_states, 1);
    assert_eq!(now.send_terminal_overloaded_sessions, 0);

    let retire = retire_send_terminal(&mut helper, session_id, first).unwrap();
    helper.work_loop_iter().unwrap();
    assert!(matches!(
        outcome(&mut helper, retire),
        WebTransportOutcome::SendEnd(WebTransportStreamSendTerminalOutcome::Retired { .. })
    ));
    assert_eq!(stats(&mut helper).send_terminal_states, 0);

    helper.peer_send_body(session_id, Vec::new(), true).unwrap();
    helper.advance_and_run_loop().unwrap();
    let now = stats(&mut helper);
    assert_eq!(now.send_terminal_waiters, 0);
    assert_eq!(now.send_terminal_states, 0);
    assert_eq!(now.send_terminal_overloaded_sessions, 0);
}

#[test]
fn webtransport_send_terminal_validates_direction_and_staleness() {
    let (mut helper, session_id) = accepted(webtransport_settings());

    for (selected_session, stream_id, error) in [
        (session_id, 400, WebTransportSelectionError::UnknownStream),
        (4, 400, WebTransportSelectionError::UnknownSession),
    ] {
        let rejected = send_end(WebTransportStreamSendTerminalOutcome::Rejected(error));
        let wait = wait_for_send_terminal(&mut helper, selected_session, stream_id).unwrap();
        helper.work_loop_iter().unwrap();
        assert_eq!(outcome(&mut helper, wait), rejected);
        let retire = retire_send_terminal(&mut helper, selected_session, stream_id).unwrap();
        helper.work_loop_iter().unwrap();
        assert_eq!(outcome(&mut helper, retire), rejected);
    }

    let peer_uni = 18;
    let prefix = webtransport_stream_data(WEBTRANSPORT_UNI_STREAM_TYPE, session_id, &[]);
    helper.peer_stream_send(peer_uni, prefix, false).unwrap();
    helper.advance_and_run_loop().unwrap();
    assert!(expect_associated_stream(
        &mut helper,
        session_id,
        peer_uni,
        WebTransportStreamDirection::Uni,
        3,
    ));
    let wrong = send_end(WebTransportStreamSendTerminalOutcome::Rejected(
        WebTransportSelectionError::WrongDirection,
    ));
    let wait = wait_for_send_terminal(&mut helper, session_id, peer_uni).unwrap();
    helper.work_loop_iter().unwrap();
    assert_eq!(outcome(&mut helper, wait), wrong);
    let retire = retire_send_terminal(&mut helper, session_id, peer_uni).unwrap();
    helper.work_loop_iter().unwrap();
    assert_eq!(outcome(&mut helper, retire), wrong);

    helper.peer_stream_send(peer_uni, Vec::new(), true).unwrap();
    helper.advance_and_run_loop().unwrap();
    assert_eq!(
        read(&mut helper, session_id, peer_uni, 16),
        WebTransportStreamReadOutcome::Terminal {
            data: Vec::new(),
            terminal: WebTransportStreamReceiveTerminal::Fin,
        }
    );
    let retired = retire_receive_terminal(&mut helper, session_id, peer_uni).unwrap();
    helper.work_loop_iter().unwrap();
    assert_eq!(
        outcome(&mut helper, retired),
        WebTransportOutcome::ReceiveRetired(
            WebTransportStreamReceiveTerminalRetirementOutcome::Retired {
                session_id,
                stream_id: peer_uni,
            }
        )
    );
    helper.work_loop_iter().unwrap();
    let stale = send_end(WebTransportStreamSendTerminalOutcome::Rejected(
        WebTransportSelectionError::StaleStream,
    ));
    let wait = wait_for_send_terminal(&mut helper, session_id, peer_uni).unwrap();
    helper.work_loop_iter().unwrap();
    assert_eq!(outcome(&mut helper, wait), stale);
    let retire = retire_send_terminal(&mut helper, session_id, peer_uni).unwrap();
    helper.work_loop_iter().unwrap();
    assert_eq!(outcome(&mut helper, retire), stale);
}

#[test]
fn webtransport_send_terminal_retirement_orders_with_local_closure() {
    let (mut helper, session_id) = accepted(webtransport_settings());

    let fin_first = open_server_webtransport_bidi(&mut helper, session_id).unwrap();
    let fin_wait = wait_for_send_terminal(&mut helper, session_id, fin_first).unwrap();
    helper.work_loop_iter().unwrap();
    assert!(matches!(
        write(&mut helper, session_id, fin_first, &[], true),
        WebTransportStreamWriteOutcome::Accepted {
            accepted: 0,
            fin_accepted: true,
            ..
        }
    ));
    assert_eq!(
        outcome(&mut helper, fin_wait),
        send_end(WebTransportStreamSendTerminalOutcome::Closed {
            stream_id: fin_first,
        })
    );
    let retirement = retire_send_terminal(&mut helper, session_id, fin_first).unwrap();
    helper.work_loop_iter().unwrap();
    assert_eq!(
        outcome(&mut helper, retirement),
        send_end(WebTransportStreamSendTerminalOutcome::Retired {
            session_id,
            stream_id: fin_first,
        })
    );

    let retire_first = open_server_webtransport_bidi(&mut helper, session_id).unwrap();
    let retirement = retire_send_terminal(&mut helper, session_id, retire_first).unwrap();
    helper.work_loop_iter().unwrap();
    assert!(matches!(
        outcome(&mut helper, retirement),
        WebTransportOutcome::SendEnd(WebTransportStreamSendTerminalOutcome::Retired { .. })
    ));
    assert_eq!(
        asked(
            &mut helper,
            WebTransportRequest::Reset {
                session_id,
                stream_id: retire_first,
                application_error: 79,
            }
        ),
        applied()
    );
    let now = stats(&mut helper);
    assert_eq!(now.send_terminal_waiters, 0);
    assert_eq!(now.send_terminal_states, 0);
}

#[test]
fn webtransport_send_terminal_retirement_orders_with_teardown() {
    let (mut helper, session_id) = accepted(webtransport_settings());
    let stream_id = open_server_webtransport_bidi(&mut helper, session_id).unwrap();
    let wait = wait_for_send_terminal(&mut helper, session_id, stream_id).unwrap();
    helper.work_loop_iter().unwrap();
    let retire = retire_send_terminal(&mut helper, session_id, stream_id).unwrap();
    helper.work_loop_iter().unwrap();
    let retired = send_end(WebTransportStreamSendTerminalOutcome::Retired {
        session_id,
        stream_id,
    });
    assert_eq!(outcome(&mut helper, wait), retired);
    assert_eq!(outcome(&mut helper, retire), retired);
    helper
        .driver
        .close_webtransport_session(session_id, 3, "closed".to_string())
        .unwrap();
    assert_eq!(helper.process_commands(), 1);

    let (mut helper, session_id) = accepted(webtransport_settings());
    let stream_id = open_server_webtransport_bidi(&mut helper, session_id).unwrap();
    let wait = wait_for_send_terminal(&mut helper, session_id, stream_id).unwrap();
    helper.work_loop_iter().unwrap();
    helper
        .driver
        .close_webtransport_session(session_id, 5, "closed".to_string())
        .unwrap();
    assert_eq!(helper.process_commands(), 1);
    assert_eq!(
        outcome(&mut helper, wait),
        send_end(WebTransportStreamSendTerminalOutcome::SessionTerminated {
            session_id,
            stream_id,
        })
    );
    let retire = retire_send_terminal(&mut helper, session_id, stream_id).unwrap();
    helper.work_loop_iter().unwrap();
    assert_eq!(
        outcome(&mut helper, retire),
        send_end(WebTransportStreamSendTerminalOutcome::Rejected(
            WebTransportSelectionError::TerminalSession,
        ))
    );

    let (mut helper, session_id) = accepted(webtransport_settings());
    let stream_id = open_server_webtransport_bidi(&mut helper, session_id).unwrap();
    let retire = retire_send_terminal(&mut helper, session_id, stream_id).unwrap();
    assert_eq!(helper.driver.requests.len(), 1);
    drop_connection(&mut helper);
    assert_eq!(
        outcome(&mut helper, retire),
        send_end(
            WebTransportStreamSendTerminalOutcome::ConnectionTerminated {
                session_id,
                stream_id,
            }
        )
    );
}

#[test]
fn webtransport_send_terminal_wakes_on_session_and_connection_teardown() {
    let (mut helper, session_id) = accepted(webtransport_settings());
    let stream_id = open_server_webtransport_bidi(&mut helper, session_id).unwrap();
    let wait = wait_for_send_terminal(&mut helper, session_id, stream_id).unwrap();
    helper.work_loop_iter().unwrap();
    helper.peer_send_body(session_id, Vec::new(), true).unwrap();
    helper.advance_and_run_loop().unwrap();
    assert_eq!(
        outcome(&mut helper, wait),
        send_end(WebTransportStreamSendTerminalOutcome::SessionTerminated {
            session_id,
            stream_id,
        })
    );

    let (mut helper, session_id) = accepted(webtransport_settings());
    let stream_id = open_server_webtransport_bidi(&mut helper, session_id).unwrap();
    let wait = wait_for_send_terminal(&mut helper, session_id, stream_id).unwrap();
    helper.work_loop_iter().unwrap();
    helper
        .driver
        .close_webtransport_session(session_id, 5, "closed".to_string())
        .unwrap();
    assert_eq!(helper.process_commands(), 1);
    assert_eq!(
        outcome(&mut helper, wait),
        send_end(WebTransportStreamSendTerminalOutcome::SessionTerminated {
            session_id,
            stream_id,
        })
    );

    let (mut helper, session_id) = accepted(webtransport_settings());
    let stream_id = open_server_webtransport_bidi(&mut helper, session_id).unwrap();
    let wait = wait_for_send_terminal(&mut helper, session_id, stream_id).unwrap();
    helper.work_loop_iter().unwrap();
    drop_connection(&mut helper);
    assert_eq!(
        outcome(&mut helper, wait),
        send_end(
            WebTransportStreamSendTerminalOutcome::ConnectionTerminated {
                session_id,
                stream_id,
            }
        )
    );
}

#[test]
fn webtransport_send_terminal_preserves_write_fin_and_reset_results() {
    let (mut helper, session_id) = accepted(webtransport_settings());

    let stopped = open_server_webtransport_bidi(&mut helper, session_id).unwrap();
    receive_bidi(&mut helper, session_id, stopped);
    let stopped_wait = wait_for_send_terminal(&mut helper, session_id, stopped).unwrap();
    helper.work_loop_iter().unwrap();
    let stop_wire = peer_stop(&mut helper, stopped, 47);
    helper.advance();
    let op = helper
        .driver
        .try_write_stream_lease(session_id, stopped, mock_write_lease(70, b"not sent"), true)
        .unwrap();
    helper.work_loop_iter().unwrap();
    let refused = match outcome(&mut helper, op) {
        WebTransportOutcome::Lease(refused) => refused,
        other => panic!("unexpected answer: {other:?}"),
    };
    assert_eq!(
        refused.verdict,
        LeaseVerdict::ResetRequired {
            wire_error_code: stop_wire,
            application_error_code: Some(47),
        }
    );
    assert!(refused.fin);
    assert_eq!(refused.lease.id, 70);
    assert_eq!(mock_write_lease_log(&refused.lease).exposures, 1);
    assert_eq!(
        outcome(&mut helper, stopped_wait),
        send_end(WebTransportStreamSendTerminalOutcome::Stopped {
            stream_id: stopped,
            wire_error_code: stop_wire,
            application_error_code: Some(47),
        })
    );
    assert_eq!(
        write(&mut helper, session_id, stopped, b"not sent", true),
        WebTransportStreamWriteOutcome::ResetRequired {
            wire_error_code: stop_wire,
            application_error_code: Some(47),
            data: b"not sent".to_vec(),
            fin: true,
        }
    );

    let uncertain = open_server_webtransport_bidi(&mut helper, session_id).unwrap();
    receive_bidi(&mut helper, session_id, uncertain);
    let uncertain_wait = wait_for_send_terminal(&mut helper, session_id, uncertain).unwrap();
    helper.work_loop_iter().unwrap();
    let op = helper
        .driver
        .try_write_stream_lease(session_id, uncertain, mock_write_lease(71, b"accepted"), false)
        .unwrap();
    helper.work_loop_iter().unwrap();
    helper.driver.cancel(op);
    let dropped = helper.driver.take_dropped();
    assert_eq!(dropped.len(), 1);
    assert_eq!(
        mock_write_lease_log(&dropped[0]).abandonments,
        [WebTransportStreamWriteLeaseProgress::Unknowable]
    );
    let uncertain_wire = peer_stop(&mut helper, uncertain, 49);
    helper.advance_and_run_loop().unwrap();
    assert!(matches!(
        outcome(&mut helper, uncertain_wait),
        WebTransportOutcome::SendEnd(WebTransportStreamSendTerminalOutcome::Stopped {
            stream_id,
            wire_error_code,
            ..
        }) if stream_id == uncertain && wire_error_code == uncertain_wire
    ));

    let finished = open_server_webtransport_bidi(&mut helper, session_id).unwrap();
    receive_bidi(&mut helper, session_id, finished);
    let finished_wait = wait_for_send_terminal(&mut helper, session_id, finished).unwrap();
    helper.work_loop_iter().unwrap();
    assert_eq!(
        write(&mut helper, session_id, finished, &[], true),
        WebTransportStreamWriteOutcome::Accepted {
            accepted: 0,
            remaining: None,
            fin_accepted: true,
        }
    );
    assert_eq!(
        outcome(&mut helper, finished_wait),
        send_end(WebTransportStreamSendTerminalOutcome::Closed {
            stream_id: finished,
        })
    );

    let reset = open_server_webtransport_bidi(&mut helper, session_id).unwrap();
    receive_bidi(&mut helper, session_id, reset);
    let reset_wait = wait_for_send_terminal(&mut helper, session_id, reset).unwrap();
    helper.work_loop_iter().unwrap();
    assert_eq!(
        asked(
            &mut helper,
            WebTransportRequest::Reset {
                session_id,
                stream_id: reset,
                application_error: 53,
            }
        ),
        applied()
    );
    assert_eq!(
        outcome(&mut helper, reset_wait),
        send_end(WebTransportStreamSendTerminalOutcome::Closed { stream_id: reset })
    );
}

#[test]
fn webtransport_zero_progress_cancellation_retires_every_stream_id() {
    let mut settings = webtransport_settings();
    settings.webtransport_max_session_work_per_callback = 1;
    let (mut helper, session_id) = accept(DriverTestHelper::with_pipe_and_http3_settings(
        Role::Server,
        single_server_bidi_webtransport_pipe(),
        settings,
    ));

    for expected_stream_id in [1, 5, 9] {
        let op = ask(&mut helper, open_bidi(session_id));
        helper.work_loop_iter().unwrap();
        assert_eq!(
            helper.driver.first_opening_stream_id(),
            Some(expected_stream_id)
        );
        helper.driver.cancel(op);

        helper.work_loop_iter().unwrap();
        helper.advance();
        assert!(matches!(
            helper.peer_poll(),
            Some((id, PeerEvent::WebTransportStream { .. })) if id == expected_stream_id
        ));
        assert_eq!(
            helper.peer_stream_stopped(expected_stream_id),
            Some(WT_SESSION_GONE)
        );
        assert_eq!(
            helper.peer_stream_recv(expected_stream_id),
            RawRead::Reset {
                error_code: WT_SESSION_GONE
            }
        );

        for _ in 0..16 {
            helper.advance();
            helper.work_loop_iter().unwrap();
            if bidi_left(&helper) == 1 {
                break;
            }
        }
        assert_eq!(bidi_left(&helper), 1);
        assert!(!owns(&helper, expected_stream_id));
    }

    assert_eq!(
        open_server_webtransport_bidi(&mut helper, session_id),
        Some(13)
    );
}

#[test]
fn webtransport_stream_limit_waits_for_max_streams_credit() {
    let (mut helper, session_id) = accept(DriverTestHelper::with_pipe_and_http3_settings(
        Role::Server,
        single_server_bidi_webtransport_pipe(),
        webtransport_settings(),
    ));

    let first = open_server_webtransport_bidi(&mut helper, session_id).unwrap();
    assert_eq!(first, 1);
    receive_bidi(&mut helper, session_id, first);
    let blocked = ask(&mut helper, open_bidi(session_id));
    helper.work_loop_iter().unwrap();
    assert!(!helper.driver.is_answered(blocked));
    let before = stats(&mut helper);
    assert_eq!(before.stream_open_waiters, 1);
    for _ in 0..32 {
        helper.work_loop_iter().unwrap();
    }
    let idle = stats(&mut helper);
    assert_eq!(
        idle.stream_open_waiter_work_total,
        before.stream_open_waiter_work_total
    );

    let reset = ask(
        &mut helper,
        WebTransportRequest::Reset {
            session_id,
            stream_id: first,
            application_error: 83,
        },
    );
    let stop = ask(
        &mut helper,
        WebTransportRequest::Stop {
            session_id,
            stream_id: first,
            application_error: 83,
        },
    );
    helper.work_loop_iter().unwrap();
    assert_eq!(outcome(&mut helper, reset), applied());
    assert_eq!(outcome(&mut helper, stop), applied());

    helper.advance();
    let wire_error = webtransport_error_to_http3(83);
    assert_eq!(helper.peer_stream_stopped(first), Some(wire_error));
    assert_eq!(
        helper.peer_stream_recv(first),
        RawRead::Reset {
            error_code: wire_error
        }
    );

    for _ in 0..32 {
        helper.advance_and_run_loop().unwrap();
        if helper.driver.is_answered(blocked) {
            break;
        }
    }
    assert_eq!(outcome(&mut helper, blocked), opened(5));
    let after = stats(&mut helper);
    assert_eq!(after.stream_open_waiters, 0);
    assert_eq!(
        after.stream_open_waiter_work_total,
        before.stream_open_waiter_work_total + 1
    );
}

#[test]
fn webtransport_stream_credit_is_directional_and_fifo() {
    let (mut helper, session_id) = accept(DriverTestHelper::with_pipe_and_http3_settings(
        Role::Server,
        single_server_stream_each_direction_webtransport_pipe(),
        webtransport_settings(),
    ));

    let first_bidi = open_server_webtransport_bidi(&mut helper, session_id).unwrap();
    receive_bidi(&mut helper, session_id, first_bidi);
    let first_uni = open_server_webtransport_uni(&mut helper, session_id).unwrap();
    assert_eq!(first_uni, 19);
    assert!(receive_server_webtransport_stream(
        &mut helper,
        session_id,
        first_uni,
        WebTransportStreamDirection::Uni,
    ));

    let first_bidi_waiter = ask(&mut helper, open_bidi(session_id));
    let second_bidi_waiter = ask(&mut helper, open_bidi(session_id));
    let uni_waiter = ask(
        &mut helper,
        open(session_id, WebTransportStreamDirection::Uni),
    );
    for _ in 0..8 {
        helper.work_loop_iter().unwrap();
    }
    assert!(!helper.driver.is_answered(first_bidi_waiter));
    assert!(!helper.driver.is_answered(second_bidi_waiter));
    assert!(!helper.driver.is_answered(uni_waiter));
    assert_eq!(stats(&mut helper).stream_open_waiters, 3);

    assert!(release_server_webtransport_stream_credit(
        &mut helper,
        session_id,
        first_bidi,
        WebTransportStreamDirection::Bidi,
        89,
    ));
    for _ in 0..32 {
        helper.advance_and_run_loop().unwrap();
        if helper.driver.is_answered(first_bidi_waiter) {
            break;
        }
    }
    assert_eq!(outcome(&mut helper, first_bidi_waiter), opened(5));
    assert!(!helper.driver.is_answered(second_bidi_waiter));
    assert!(!helper.driver.is_answered(uni_waiter));
    receive_bidi(&mut helper, session_id, 5);

    assert!(release_server_webtransport_stream_credit(
        &mut helper,
        session_id,
        first_uni,
        WebTransportStreamDirection::Uni,
        97,
    ));
    for _ in 0..32 {
        helper.advance_and_run_loop().unwrap();
        if helper.driver.is_answered(uni_waiter) {
            break;
        }
    }
    assert_eq!(outcome(&mut helper, uni_waiter), opened(23));
    assert!(!helper.driver.is_answered(second_bidi_waiter));

    assert!(release_server_webtransport_stream_credit(
        &mut helper,
        session_id,
        5,
        WebTransportStreamDirection::Bidi,
        101,
    ));
    for _ in 0..32 {
        helper.advance_and_run_loop().unwrap();
        if helper.driver.is_answered(second_bidi_waiter) {
            break;
        }
    }
    assert_eq!(outcome(&mut helper, second_bidi_waiter), opened(9));
    let now = stats(&mut helper);
    assert_eq!(now.stream_open_waiters, 0);
    assert_eq!(now.stream_open_waiter_work_total, 3);
}

#[test]
fn webtransport_stream_credit_before_registration_is_not_lost() {
    let (mut helper, session_id) = accept(DriverTestHelper::with_pipe_and_http3_settings(
        Role::Server,
        single_server_bidi_webtransport_pipe(),
        webtransport_settings(),
    ));
    let first = open_server_webtransport_bidi(&mut helper, session_id).unwrap();
    receive_bidi(&mut helper, session_id, first);
    assert!(release_server_webtransport_stream_credit(
        &mut helper,
        session_id,
        first,
        WebTransportStreamDirection::Bidi,
        103,
    ));
    for _ in 0..32 {
        helper.advance_and_run_loop().unwrap();
        if bidi_left(&helper) == 1 {
            break;
        }
    }
    assert_eq!(bidi_left(&helper), 1);

    assert_eq!(
        open_server_webtransport_bidi(&mut helper, session_id),
        Some(5)
    );
    let now = stats(&mut helper);
    assert_eq!(now.stream_open_waiters, 0);
    assert_eq!(now.stream_open_waiter_work_total, 0);
}

#[test]
fn webtransport_stream_credit_cancellation_bounds_and_teardown() {
    let mut settings = webtransport_settings();
    settings.webtransport_max_pending_streams = 1;
    settings.webtransport_max_pending_streams_per_session = 1;
    let (mut helper, session_id) = accept(DriverTestHelper::with_pipe_and_http3_settings(
        Role::Server,
        single_server_bidi_webtransport_pipe(),
        settings.clone(),
    ));
    let first = open_server_webtransport_bidi(&mut helper, session_id).unwrap();
    receive_bidi(&mut helper, session_id, first);

    let cancelled = ask(&mut helper, open_bidi(session_id));
    helper.work_loop_iter().unwrap();
    assert_eq!(stats(&mut helper).stream_open_waiters, 1);
    helper.driver.cancel(cancelled);
    helper.work_loop_iter().unwrap();
    assert_eq!(stats(&mut helper).stream_open_waiters, 0);

    let replacement = ask(&mut helper, open_bidi(session_id));
    helper.work_loop_iter().unwrap();
    let saturated = ask(&mut helper, open_bidi(session_id));
    helper.work_loop_iter().unwrap();
    assert_eq!(
        outcome(&mut helper, saturated),
        open_rejected(WebTransportSelectionError::ResourceLimit)
    );
    let now = stats(&mut helper);
    assert_eq!(now.stream_open_waiters, 1);
    assert_eq!(now.stream_open_waiter_saturation_total, 1);

    assert!(release_server_webtransport_stream_credit(
        &mut helper,
        session_id,
        first,
        WebTransportStreamDirection::Bidi,
        107,
    ));
    for _ in 0..32 {
        helper.advance_and_run_loop().unwrap();
        if helper.driver.is_answered(replacement) {
            break;
        }
    }
    assert_eq!(outcome(&mut helper, replacement), opened(5));

    let pending = ask(&mut helper, open_bidi(session_id));
    helper.work_loop_iter().unwrap();
    assert!(!helper.driver.is_answered(pending));
    helper
        .driver
        .close_webtransport_session(session_id, 7, "closed".to_string())
        .unwrap();
    assert_eq!(helper.process_commands(), 1);
    assert_eq!(
        outcome(&mut helper, pending),
        open_rejected(WebTransportSelectionError::ClosingSession)
    );

    let (mut helper, session_id) = accept(DriverTestHelper::with_pipe_and_http3_settings(
        Role::Server,
        single_server_bidi_webtransport_pipe(),
        settings,
    ));
    let _first = open_server_webtransport_bidi(&mut helper, session_id).unwrap();
    let pending = ask(&mut helper, open_bidi(session_id));
    helper.work_loop_iter().unwrap();
    assert!(!helper.driver.is_answered(pending));
    drop_connection(&mut helper);
    assert_eq!(
        outcome(&mut helper, pending),
        open_rejected(WebTransportSelectionError::ConnectionClosed)
    );
}

#[test]
fn webtransport_stream_credit_cancellation_survives_a_full_lane() {
    let mut settings = webtransport_settings();
    settings.webtransport_command_capacity = 1;
    settings.webtransport_max_pending_streams = 1;
    settings.webtransport_max_pending_streams_per_session = 1;
    let (mut helper, session_id) = accept(DriverTestHelper::with_pipe_and_http3_settings(
        Role::Server,
        single_server_bidi_webtransport_pipe(),
        settings,
    ));
    let _first = open_server_webtransport_bidi(&mut helper, session_id).unwrap();

    let pending = ask(&mut helper, open_bidi(session_id));
    helper.work_loop_iter().unwrap();
    assert_eq!(stats(&mut helper).stream_open_waiters, 1);

    let queued = ask(&mut helper, WebTransportRequest::RetentionStats);
    assert_eq!(helper.driver.requests.len(), 1);
    assert_eq!(helper.ask(WebTransportRequest::RetentionStats), None);
    helper.driver.cancel(pending);

    helper.work_loop_iter().unwrap();
    assert!(matches!(
        outcome(&mut helper, queued),
        WebTransportOutcome::Stats(_)
    ));
    assert_eq!(stats(&mut helper).stream_open_waiters, 0);
}

#[test]
fn webtransport_inbound_and_local_opening_share_one_hard_cap() {
    let mut settings = webtransport_settings();
    settings.webtransport_max_pending_streams = 1;
    settings.webtransport_max_pending_streams_per_session = 1;
    let (mut helper, session_id) = accept(DriverTestHelper::with_pipe_and_http3_settings(
        Role::Server,
        prefix_backpressured_webtransport_pipe(),
        settings,
    ));

    let opening = ask(&mut helper, open_bidi(session_id));
    helper.work_loop_iter().unwrap();
    assert!(!helper.driver.is_answered(opening));
    assert_eq!(helper.driver.first_opening_stream_id(), Some(1));

    let optimistic =
        webtransport_stream_data(WEBTRANSPORT_BIDI_STREAM_TYPE, session_id + 8, b"overflow");
    helper.peer_stream_send(4, optimistic, false).unwrap();
    helper.advance_and_run_loop().unwrap();
    assert_eq!(
        helper
            .driver
            .core
            .session
            .as_ref()
            .unwrap()
            .pending_stream_count(),
        0
    );
    helper.advance();
    assert_eq!(
        helper.peer_stream_stopped(4),
        Some(WT_BUFFERED_STREAM_REJECTED)
    );
    helper.driver.cancel(opening);
}

#[test]
fn webtransport_commit_errors_retry_or_fail_stop_without_leaking() {
    let (mut helper, session_id) = accepted(webtransport_settings());
    helper.driver.desk.inject_commit_error(CommitFault::Blocked);
    let retried = ask(&mut helper, open_bidi(session_id));
    helper.work_loop_iter().unwrap();
    assert!(!helper.is_answered(retried));
    helper.work_loop_iter().unwrap();
    assert_eq!(outcome(&mut helper, retried), opened(1));

    helper.driver.desk.inject_commit_error(CommitFault::Failed);
    let failed = ask(&mut helper, open_bidi(session_id));
    helper.work_loop_iter().unwrap();
    assert_eq!(
        outcome(&mut helper, failed),
        open_rejected(WebTransportSelectionError::InternalFailure)
    );
    assert!(!owns(&helper, 5));

    helper.advance();
    assert!(matches!(
        helper.peer_poll(),
        Some((1, PeerEvent::WebTransportStream { .. }))
    ));
    assert!(matches!(
        helper.peer_poll(),
        Some((5, PeerEvent::WebTransportStream { .. }))
    ));
    assert_eq!(
        helper.peer_stream_recv(5),
        RawRead::Reset {
            error_code: WT_SESSION_GONE
        }
    );
}

#[test]
fn webtransport_prefix_and_payload_retry_without_replay() {
    let (mut helper, session_id) = accept(DriverTestHelper::with_pipe_and_http3_settings(
        Role::Server,
        prefix_backpressured_webtransport_pipe(),
        webtransport_settings(),
    ));

    let opening = ask(&mut helper, open_bidi(session_id));
    helper.work_loop_iter().unwrap();
    assert!(!helper.driver.is_answered(opening));

    let mut classified_stream = None;
    for _ in 0..16 {
        helper.advance();
        match helper.peer_poll() {
            Some((
                stream_id,
                PeerEvent::WebTransportStream {
                    session_id: actual_session,
                    direction: WebTransportStreamDirection::Bidi,
                    prefix_len: 3,
                },
            )) if actual_session == session_id => {
                classified_stream = Some(stream_id);
                break;
            }
            None => {}
            other => panic!("unexpected prefix event: {other:?}"),
        }
        helper.advance();
        helper.work_loop_iter().unwrap();
    }
    let stream_id = classified_stream.expect("the prefix did not complete");
    assert_eq!(outcome(&mut helper, opening), opened(stream_id));

    let payload: Vec<u8> = (0..128).collect();
    let mut remaining = payload.clone();
    let mut received = Vec::new();
    let mut saw_partial = false;
    let mut saw_fin = false;
    for _ in 0..128 {
        if remaining.is_empty() && saw_fin {
            break;
        }
        remaining = match write(&mut helper, session_id, stream_id, &remaining, true) {
            WebTransportStreamWriteOutcome::Accepted {
                accepted,
                remaining,
                fin_accepted,
            } => {
                saw_partial |= accepted != payload.len();
                saw_fin |= fin_accepted;
                remaining.unwrap_or_default()
            }
            WebTransportStreamWriteOutcome::Blocked { data, fin: true } => data,
            other => panic!("unexpected write outcome: {other:?}"),
        };

        helper.advance();
        loop {
            match helper.peer_stream_recv(stream_id) {
                RawRead::Data { data, fin } => {
                    received.extend_from_slice(&data);
                    saw_fin |= fin;
                }
                RawRead::Nothing => break,
                other => panic!("unexpected selected read: {other:?}"),
            }
        }
        helper.advance();
    }

    assert!(saw_partial);
    assert!(saw_fin);
    assert!(remaining.is_empty());
    assert_eq!(received, payload);
}

#[test]
fn webtransport_blocked_prefix_does_not_starve_another_stream() {
    let mut settings = webtransport_settings();
    settings.webtransport_max_session_work_per_callback = 2;
    let (mut helper, session_id) = accept(DriverTestHelper::with_pipe_and_http3_settings(
        Role::Server,
        prefix_backpressured_webtransport_pipe(),
        settings,
    ));
    let blocked = ask(&mut helper, open_bidi(session_id));
    let healthy = ask(
        &mut helper,
        open(session_id, WebTransportStreamDirection::Uni),
    );
    assert_eq!(helper.driver.requests.len(), 2);

    let mut callbacks = 0;
    while !helper.driver.is_answered(healthy) && callbacks < 4 {
        helper.work_loop_iter().unwrap();
        callbacks += 1;
    }
    assert!(helper.driver.is_answered(healthy));
    assert!(!helper.driver.is_answered(blocked));
    assert!(callbacks <= 3);

    let stream_id = match outcome(&mut helper, healthy) {
        WebTransportOutcome::Open(WebTransportOpenStreamOutcome::Opened { stream_id }) => stream_id,
        other => panic!("unexpected answer: {other:?}"),
    };
    assert_eq!(stream_id & 0x3, 3);
    helper.advance();
    assert_eq!(
        helper.peer_poll(),
        Some((
            stream_id,
            PeerEvent::WebTransportStream {
                session_id,
                direction: WebTransportStreamDirection::Uni,
                prefix_len: 3,
            }
        ))
    );
    helper.driver.cancel(blocked);
}

/// A read gives what has arrived, and with the last bytes how the stream ended.
#[test]
fn webtransport_selected_read_preserves_fin_and_reliable_reset() {
    let (mut helper, session_id) = accepted(webtransport_settings());

    let fin_bytes =
        webtransport_stream_data(WEBTRANSPORT_BIDI_STREAM_TYPE, session_id, b"fin payload");
    helper.peer_stream_send(4, fin_bytes, true).unwrap();
    helper.advance_and_run_loop().unwrap();
    assert!(expect_associated_stream(
        &mut helper,
        session_id,
        4,
        WebTransportStreamDirection::Bidi,
        3,
    ));
    assert_eq!(
        read(&mut helper, session_id, 4, 64),
        WebTransportStreamReadOutcome::Terminal {
            data: b"fin payload".to_vec(),
            terminal: WebTransportStreamReceiveTerminal::Fin,
        }
    );
    assert_eq!(stats(&mut helper).receive_terminal_states, 1);
    let retire = retire_receive_terminal(&mut helper, session_id, 4).unwrap();
    helper.work_loop_iter().unwrap();
    assert_eq!(
        outcome(&mut helper, retire),
        WebTransportOutcome::ReceiveRetired(
            WebTransportStreamReceiveTerminalRetirementOutcome::Retired {
                session_id,
                stream_id: 4,
            }
        )
    );
    assert_eq!(stats(&mut helper).receive_terminal_states, 0);

    let reset_bytes =
        webtransport_stream_data(WEBTRANSPORT_BIDI_STREAM_TYPE, session_id, b"keptlost");
    let sent = helper.peer_stream_send(8, reset_bytes, false).unwrap();
    helper.advance_and_run_loop().unwrap();
    assert!(expect_associated_stream(
        &mut helper,
        session_id,
        8,
        WebTransportStreamDirection::Bidi,
        3,
    ));
    assert_eq!(helper.stream_readable_len(8), 8);

    let wire_error = webtransport_error_to_http3(77);
    helper.peer_shutdown_write_after(8, wire_error, sent - 7);
    helper.advance_and_run_loop().unwrap();
    assert_eq!(helper.stream_readable_len(8), 4);
    assert_eq!(
        read(&mut helper, session_id, 8, 64),
        WebTransportStreamReadOutcome::Data {
            data: b"kept".to_vec(),
            fin: false,
        }
    );
    assert_eq!(
        read(&mut helper, session_id, 8, 64),
        WebTransportStreamReadOutcome::Terminal {
            data: Vec::new(),
            terminal: WebTransportStreamReceiveTerminal::Reset {
                wire_error_code: wire_error,
                application_error_code: Some(77),
            },
        }
    );
    let retire = retire_receive_terminal(&mut helper, session_id, 8).unwrap();
    helper.work_loop_iter().unwrap();
    assert_eq!(
        outcome(&mut helper, retire),
        WebTransportOutcome::ReceiveRetired(
            WebTransportStreamReceiveTerminalRetirementOutcome::Retired {
                session_id,
                stream_id: 8,
            }
        )
    );
}

/// A read of a part leaves the end of the stream to the read of the rest.
#[test]
fn partial_read_leaves_the_end_for_later() {
    let (mut helper, session_id) = accepted(webtransport_settings());
    let bytes =
        webtransport_stream_data(WEBTRANSPORT_BIDI_STREAM_TYPE, session_id, b"fin payload");
    helper.peer_stream_send(4, bytes, true).unwrap();
    helper.advance_and_run_loop().unwrap();
    assert_eq!(
        read(&mut helper, session_id, 4, 4),
        WebTransportStreamReadOutcome::Data {
            data: b"fin ".to_vec(),
            fin: false,
        }
    );
    assert_eq!(
        read(&mut helper, session_id, 4, 64),
        WebTransportStreamReadOutcome::Terminal {
            data: b"payload".to_vec(),
            terminal: WebTransportStreamReceiveTerminal::Fin,
        }
    );
}

#[test]
fn webtransport_selected_stream_propagates_stop_and_reset_codes() {
    let (mut helper, session_id) = accepted(webtransport_settings());

    let stream_id = open_server_webtransport_bidi(&mut helper, session_id).unwrap();
    receive_bidi(&mut helper, session_id, stream_id);
    let stop_wire = peer_stop(&mut helper, stream_id, 19);
    helper.advance_and_run_loop().unwrap();
    assert_eq!(
        write(&mut helper, session_id, stream_id, b"retained", false),
        WebTransportStreamWriteOutcome::ResetRequired {
            wire_error_code: stop_wire,
            application_error_code: Some(19),
            data: b"retained".to_vec(),
            fin: false,
        }
    );

    let reset_target = open_server_webtransport_bidi(&mut helper, session_id).unwrap();
    receive_bidi(&mut helper, session_id, reset_target);
    assert_eq!(
        asked(
            &mut helper,
            WebTransportRequest::Reset {
                session_id,
                stream_id: reset_target,
                application_error: 23,
            }
        ),
        applied()
    );
    helper.advance();
    assert_eq!(
        helper.peer_stream_recv(reset_target),
        RawRead::Reset {
            error_code: webtransport_error_to_http3(23)
        }
    );

    let incoming = webtransport_stream_data(WEBTRANSPORT_BIDI_STREAM_TYPE, session_id, b"incoming");
    helper.peer_stream_send(4, incoming, false).unwrap();
    helper.advance_and_run_loop().unwrap();
    assert!(expect_associated_stream(
        &mut helper,
        session_id,
        4,
        WebTransportStreamDirection::Bidi,
        3,
    ));
    assert_eq!(
        asked(
            &mut helper,
            WebTransportRequest::Stop {
                session_id,
                stream_id: 4,
                application_error: 29,
            }
        ),
        applied()
    );
    helper.advance();
    assert_eq!(
        helper.peer_stream_send(4, b"after stop".to_vec(), false),
        Err(webtransport_error_to_http3(29))
    );
}

#[test]
fn webtransport_typed_datagrams_are_atomic_and_bypass_legacy_flows() {
    let mut settings = webtransport_settings();
    settings.webtransport_max_pending_datagrams = 1;
    settings.webtransport_max_pending_datagrams_per_session = 1;
    settings.webtransport_max_pending_datagram_bytes = 32;
    settings.webtransport_max_pending_datagram_bytes_per_session = 32;
    let (mut helper, session_id) = accepted(settings);

    let max = match asked(&mut helper, WebTransportRequest::MaxDatagram { session_id }) {
        WebTransportOutcome::MaxDatagram(Ok(max)) => max,
        other => panic!("unexpected answer: {other:?}"),
    };
    assert_eq!(
        max + octets::varint_len(session_id / 4),
        DGRAM_MAX_WRITABLE_LEN
    );

    assert_eq!(
        asked(
            &mut helper,
            WebTransportRequest::SendDatagram {
                session_id,
                datagram: b"native".to_vec(),
            }
        ),
        WebTransportOutcome::DatagramSent(WebTransportDatagramSendOutcome::Accepted)
    );
    helper.advance();
    assert!(assert_client_raw_h3_dgram(
        &mut helper,
        session_id / 4,
        b"native"
    ));
    assert_eq!(helper.driver.core.flows.len(), 0);
    assert!(assert_no_driver_event(&mut helper));

    assert_eq!(
        asked(
            &mut helper,
            WebTransportRequest::SendDatagram {
                session_id,
                datagram: vec![0xa5; max + 1],
            }
        ),
        WebTransportOutcome::DatagramSent(WebTransportDatagramSendOutcome::TooLarge {
            max,
            datagram: vec![0xa5; max + 1],
        })
    );
    assert_eq!(
        asked(
            &mut helper,
            WebTransportRequest::SendDatagram {
                session_id,
                datagram: vec![0x5a; max],
            }
        ),
        WebTransportOutcome::DatagramSent(WebTransportDatagramSendOutcome::Accepted)
    );
    helper.advance();
    let boundary = helper.peer_dgram_recv().unwrap();
    assert_eq!(boundary[0], 0);
    assert_eq!(boundary.len(), max + 1);
    assert!(boundary[1..].iter().all(|byte| *byte == 0x5a));

    for _ in 0..10 {
        assert_eq!(
            helper.driver.core.transport.send_dgram(b"fill".to_vec()),
            None
        );
    }
    assert_eq!(
        asked(
            &mut helper,
            WebTransportRequest::SendDatagram {
                session_id,
                datagram: b"blocked".to_vec(),
            }
        ),
        WebTransportOutcome::DatagramSent(WebTransportDatagramSendOutcome::Blocked(
            b"blocked".to_vec()
        ))
    );
    assert_eq!(stats(&mut helper).transport_datagram_send_bytes, 40);
    helper.advance();

    for payload in [b"one".as_slice(), b"two", b"three"] {
        let mut wire = vec![0];
        wire.extend_from_slice(payload);
        helper.peer_dgram_send(wire);
    }
    helper.advance_and_run_loop().unwrap();
    assert_eq!(helper.driver.core.flows.len(), 0);
    assert_eq!(
        asked(
            &mut helper,
            WebTransportRequest::ReceiveDatagram { session_id }
        ),
        WebTransportOutcome::DatagramRead(WebTransportDatagramReadOutcome::Overflow {
            datagrams: 2,
            bytes: 8,
        })
    );
    assert_eq!(
        asked(
            &mut helper,
            WebTransportRequest::ReceiveDatagram { session_id }
        ),
        WebTransportOutcome::DatagramRead(WebTransportDatagramReadOutcome::Datagram(
            b"one".to_vec()
        ))
    );
    assert_eq!(
        asked(
            &mut helper,
            WebTransportRequest::ReceiveDatagram { session_id }
        ),
        WebTransportOutcome::DatagramRead(WebTransportDatagramReadOutcome::Empty)
    );
    assert_eq!(helper.driver.core.flows.len(), 0);
}

#[test]
fn webtransport_datagram_before_connect_is_classified_exactly_once() {
    let mut helper = webtransport_helper(webtransport_settings());
    start_webtransport_driver(&mut helper).unwrap();

    helper.peer_dgram_send(b"\0native-early".to_vec());
    helper.advance_and_run_loop().unwrap();
    assert_eq!(helper.driver.core.flows.len(), 0);
    let (count, bytes, _) = helper.driver.core.datagrams.usage();
    assert_eq!((count, bytes), (1, 12));

    let session_id = open_pending_webtransport_session(&mut helper).unwrap();
    assert!(accept_pending_webtransport_session(&mut helper, session_id));
    assert_eq!(
        asked(
            &mut helper,
            WebTransportRequest::ReceiveDatagram { session_id }
        ),
        WebTransportOutcome::DatagramRead(WebTransportDatagramReadOutcome::Datagram(
            b"native-early".to_vec()
        ))
    );
    assert_eq!(helper.driver.core.flows.len(), 0);

    helper.peer_dgram_send(b"\x01legacy-early".to_vec());
    helper.advance_and_run_loop().unwrap();
    let (count, bytes, _) = helper.driver.core.datagrams.usage();
    assert_eq!((count, bytes), (1, 12));

    let headers = vec![
        Header::new(":method", "CONNECT-UDP"),
        Header::new(":scheme", "https"),
        Header::new(":authority", "quic.tech"),
        Header::new(":path", "/"),
        Header::new("datagram-flow-id", "1"),
    ];
    assert_eq!(helper.peer_client_send_request(headers, false), Some(4));
    helper.advance_and_run_loop().unwrap();
    assert!(matches!(
        helper.recv_event(),
        Some(DriverEvent::Core(H3Event::NewFlow { flow_id: 1 }))
    ));
    assert!(matches!(
        helper.recv_event(),
        Some(DriverEvent::Headers { .. })
    ));
    assert!(matches!(
        helper.driver.core.datagrams.read(1),
        h3_driver::wt::datagrams::DatagramRead::Datagram(payload) if payload == b"legacy-early"
    ));
    assert!(matches!(
        helper.driver.core.datagrams.read(1),
        h3_driver::wt::datagrams::DatagramRead::Empty
    ));
}

#[test]
fn webtransport_datagrams_are_released_on_session_termination() {
    let (mut helper, session_id) = accepted(webtransport_settings());

    assert_eq!(
        asked(
            &mut helper,
            WebTransportRequest::SendDatagram {
                session_id,
                datagram: b"outbound".to_vec(),
            }
        ),
        WebTransportOutcome::DatagramSent(WebTransportDatagramSendOutcome::Accepted)
    );
    helper.advance();
    assert!(assert_next_client_raw_h3_dgram(
        &mut helper,
        session_id / 4,
        b"outbound"
    ));
    assert!(assert_client_no_raw_h3_dgram(&mut helper));

    for payload in [b"first".as_slice(), b"still".as_slice()] {
        let mut wire = vec![(session_id / 4) as u8];
        wire.extend_from_slice(payload);
        helper.peer_dgram_send(wire);
    }
    helper.advance_and_run_loop().unwrap();
    let (count, bytes, _) = helper.driver.core.datagrams.usage();
    assert_eq!((count, bytes), (2, 10));

    assert_eq!(
        asked(
            &mut helper,
            WebTransportRequest::ReceiveDatagram { session_id }
        ),
        WebTransportOutcome::DatagramRead(WebTransportDatagramReadOutcome::Datagram(
            b"first".to_vec()
        ))
    );
    let (count, bytes, _) = helper.driver.core.datagrams.usage();
    assert_eq!((count, bytes), (1, 5));

    helper.peer_send_body(session_id, Vec::new(), true).unwrap();
    helper.advance_and_run_loop().unwrap();
    assert!(expect_session_terminated(
        &mut helper,
        session_id,
        WebTransportSessionCloseReason::Clean,
    ));
    let (count, bytes, _) = helper.driver.core.datagrams.usage();
    assert_eq!((count, bytes), (0, 0));

    assert_eq!(
        asked(
            &mut helper,
            WebTransportRequest::ReceiveDatagram { session_id }
        ),
        WebTransportOutcome::DatagramRead(WebTransportDatagramReadOutcome::Rejected(
            WebTransportSelectionError::TerminalSession
        ))
    );
    assert_eq!(helper.driver.core.flows.len(), 0);
}

#[test]
fn webtransport_selected_streams_enforce_direction_and_staleness() {
    let (mut helper, session_id) = accepted(webtransport_settings());
    assert_eq!(session_id, 0);

    let uni_stream = open_server_webtransport_uni(&mut helper, session_id).unwrap();
    assert_eq!(uni_stream & 0x3, 3);
    assert!(receive_server_webtransport_stream(
        &mut helper,
        session_id,
        uni_stream,
        WebTransportStreamDirection::Uni,
    ));

    assert_eq!(
        read(&mut helper, session_id, uni_stream, 16),
        WebTransportStreamReadOutcome::Rejected(WebTransportSelectionError::WrongDirection)
    );
    assert_eq!(
        write(&mut helper, session_id, uni_stream, b"uni payload", true),
        WebTransportStreamWriteOutcome::Accepted {
            accepted: 11,
            remaining: None,
            fin_accepted: true,
        }
    );
    helper.advance();
    assert!(matches!(
        helper.peer_stream_recv(uni_stream),
        RawRead::Data { data, fin: true } if data == b"uni payload"
    ));

    let terminal = wait_for_send_terminal(&mut helper, session_id, uni_stream).unwrap();
    helper.work_loop_iter().unwrap();
    assert_eq!(
        outcome(&mut helper, terminal),
        send_end(WebTransportStreamSendTerminalOutcome::Closed {
            stream_id: uni_stream,
        })
    );
    let retired = retire_send_terminal(&mut helper, session_id, uni_stream).unwrap();
    helper.work_loop_iter().unwrap();
    assert_eq!(
        outcome(&mut helper, retired),
        send_end(WebTransportStreamSendTerminalOutcome::Retired {
            session_id,
            stream_id: uni_stream,
        })
    );
    helper.work_loop_iter().unwrap();
    assert_eq!(
        write(&mut helper, session_id, uni_stream, b"stale stream", false),
        WebTransportStreamWriteOutcome::Rejected {
            error: WebTransportSelectionError::StaleStream,
            data: b"stale stream".to_vec(),
            fin: false,
        }
    );
}

#[test]
fn webtransport_command_lane_nonblocking_admission_preserves_ownership() {
    let mut settings = webtransport_settings();
    settings.webtransport_command_capacity = 2;
    settings.webtransport_max_datagram_send_allocation_bytes = 64;
    let mut helper = webtransport_helper(settings);

    let oversized = vec![0xa5; datagram_socket::MAX_DATAGRAM_SIZE + 1];
    assert_eq!(
        helper.driver.try_send_datagram(0, &dgram_buf(&oversized)),
        Err(WebTransportDatagramSendOutcome::TooLarge {
            max: datagram_socket::MAX_DATAGRAM_SIZE,
            datagram: oversized,
        })
    );

    let allocation_oversized = datagram_socket::DgramBuffer::with_capacity(65);
    match helper.driver.try_send_datagram(0, &allocation_oversized) {
        Err(WebTransportDatagramSendOutcome::AllocationTooLarge {
            max,
            allocated,
            datagram,
        }) => {
            assert_eq!(max, 64);
            assert!(allocated >= 65);
            assert_eq!(allocation_oversized.spare_capacity(), allocated);
            assert!(datagram.is_empty());
        }
        other => panic!("unexpected outcome: {other:?}"),
    }

    let write = helper
        .driver
        .try_write_stream(0, 1, b"byte-exact-write".to_vec(), true)
        .unwrap();
    let datagram = helper
        .driver
        .try_send_datagram(0, &dgram_buf(b"byte-exact-datagram"))
        .unwrap();
    assert_eq!(
        helper
            .driver
            .try_write_stream(0, 1, b"queue-full".to_vec(), false),
        Err(WebTransportStreamWriteOutcome::QueueFull {
            data: b"queue-full".to_vec(),
            fin: false,
        })
    );

    drop_connection(&mut helper);
    assert_eq!(helper.ask(WebTransportRequest::RetentionStats), None);
    assert_eq!(
        outcome(&mut helper, write),
        WebTransportOutcome::Write(WebTransportStreamWriteOutcome::Rejected {
            error: WebTransportSelectionError::ConnectionClosed,
            data: b"byte-exact-write".to_vec(),
            fin: true,
        })
    );
    assert_eq!(
        outcome(&mut helper, datagram),
        WebTransportOutcome::DatagramSent(WebTransportDatagramSendOutcome::Rejected {
            error: WebTransportSelectionError::ConnectionClosed,
            datagram: b"byte-exact-datagram".to_vec(),
        })
    );
    assert_eq!(
        helper.driver.try_write_stream(0, 1, b"late".to_vec(), false),
        Err(WebTransportStreamWriteOutcome::Rejected {
            error: WebTransportSelectionError::ConnectionClosed,
            data: b"late".to_vec(),
            fin: false,
        })
    );
}

/// Whoever waits for room in the lane keeps what it has to send, and learns of the
/// end of the connection when it tries again.
#[test]
fn webtransport_command_lane_returns_ownership_on_teardown() {
    let mut settings = webtransport_settings();
    settings.webtransport_command_capacity = 1;
    let mut helper = webtransport_helper(settings);

    let write = helper
        .driver
        .try_write_stream(0, 4, b"queued write".to_vec(), true)
        .unwrap();
    assert_eq!(helper.driver.requests.len(), 1);
    let queued = dgram_buf(b"queued datagram");
    assert_eq!(
        helper.driver.try_send_datagram(0, &queued),
        Err(WebTransportDatagramSendOutcome::QueueFull(
            b"queued datagram".to_vec()
        ))
    );

    drop_connection(&mut helper);
    assert_eq!(
        outcome(&mut helper, write),
        WebTransportOutcome::Write(WebTransportStreamWriteOutcome::Rejected {
            error: WebTransportSelectionError::ConnectionClosed,
            data: b"queued write".to_vec(),
            fin: true,
        })
    );
    assert_eq!(
        helper.driver.try_send_datagram(0, &queued),
        Err(WebTransportDatagramSendOutcome::Rejected {
            error: WebTransportSelectionError::ConnectionClosed,
            datagram: b"queued datagram".to_vec(),
        })
    );
}

/// The limit itself is still taken.
#[test]
fn datagram_allocations_are_bounded() {
    let mut settings = webtransport_settings();
    settings.webtransport_max_datagram_send_allocation_bytes = 64;
    let mut helper = webtransport_helper(settings);
    assert_eq!(
        helper.driver.offer_datagram(0, b"kept".to_vec(), 65),
        Err(WebTransportDatagramSendOutcome::AllocationTooLarge {
            max: 64,
            allocated: 65,
            datagram: b"kept".to_vec(),
        })
    );
    assert_eq!(helper.driver.requests.len(), 0);
    assert_eq!(helper.driver.offer_datagram(0, b"kept".to_vec(), 64), Ok(0));
    assert_eq!(helper.driver.requests.len(), 1);
}

/// Plain writes are leases too, and are out until their answers are taken.
#[test]
fn writes_are_bounded_until_their_answers_are_taken() {
    let mut settings = webtransport_settings();
    settings.webtransport_command_capacity = 2;
    settings.webtransport_max_stream_write_bytes = 8;
    settings.webtransport_max_stream_write_lease_retained_bytes = 8;
    let mut helper = webtransport_helper(settings);
    start_webtransport_driver(&mut helper).unwrap();

    let first = helper
        .driver
        .try_write_stream(99, 1, b"aaaa".to_vec(), false)
        .unwrap();
    let _second = helper
        .driver
        .try_write_stream(99, 5, b"bbbb".to_vec(), false)
        .unwrap();
    helper.work_loop_iter().unwrap();
    assert_eq!(helper.driver.requests.len(), 0);
    assert_eq!(
        helper
            .driver
            .try_write_stream(99, 9, b"cccc".to_vec(), false),
        Err(WebTransportStreamWriteOutcome::ResourceLimit {
            data: b"cccc".to_vec(),
            fin: false,
        })
    );

    let now = stats(&mut helper);
    assert_eq!(now.write_leases, 2);
    assert_eq!(now.write_lease_retained_bytes, 8);
    assert_eq!(now.max_write_leases, 2);
    assert_eq!(now.max_write_lease_retained_bytes, 16);
    assert_eq!(now.write_lease_admitted_total, 2);
    assert_eq!(now.write_lease_resource_limit_total, 1);

    assert_eq!(
        outcome(&mut helper, first),
        WebTransportOutcome::Write(WebTransportStreamWriteOutcome::Rejected {
            error: WebTransportSelectionError::UnknownSession,
            data: b"aaaa".to_vec(),
            fin: false,
        })
    );
    assert!(helper
        .driver
        .try_write_stream(99, 9, b"dddd".to_vec(), false)
        .is_ok());
}

#[test]
fn webtransport_retention_snapshot_covers_all_bounded_queues() {
    let mut settings = webtransport_settings();
    settings.webtransport_command_capacity = 4;
    settings.webtransport_max_stream_write_bytes = 32;
    settings.webtransport_max_stream_write_lease_retained_bytes = 32;
    settings.webtransport_max_datagram_send_allocation_bytes = 64;
    let mut helper = webtransport_helper(settings);
    assert_eq!(accept_webtransport_session(&mut helper), Some(0));

    let allocation = 64;
    assert!(helper.driver.core.datagrams.arrive(PendingDatagram {
        flow_id: 0,
        payload: b"retained".to_vec(),
        allocation,
    }));

    let op = ask(&mut helper, WebTransportRequest::RetentionStats);
    assert_eq!(helper.driver.requests.len(), 1);
    let first = helper
        .driver
        .try_write_stream(0, 999, b"first".to_vec(), false)
        .unwrap();
    let second = helper
        .driver
        .try_write_stream(0, 999, b"second".to_vec(), false)
        .unwrap();
    helper.work_loop_iter().unwrap();

    let now = match outcome(&mut helper, op) {
        WebTransportOutcome::Stats(stats) => stats,
        other => panic!("unexpected answer: {other:?}"),
    };
    assert_eq!(now.sessions, 1);
    assert_eq!(now.pending_datagrams, 1);
    assert_eq!(now.pending_datagram_payload_bytes, 8);
    assert_eq!(now.pending_datagram_allocation_bytes, allocation);
    assert_eq!(now.command_capacity, 4);
    assert_eq!(now.queued_commands, 2);
    assert_eq!(
        now.queued_command_payload_bytes_upper_bound,
        2 * MAX_CLOSE_MESSAGE_LEN
    );
    assert_eq!(now.write_leases, 2);
    assert_eq!(now.write_lease_retained_bytes, 11);
    assert_eq!(now.max_write_leases, 4);
    assert_eq!(now.max_write_lease_retained_bytes, 128);
    assert_eq!(now.write_lease_admitted_total, 2);
    assert_eq!(now.write_lease_queue_full_total, 0);
    assert_eq!(now.write_lease_resource_limit_total, 0);
    assert_eq!(now.write_lease_too_large_total, 0);
    assert!(now.metadata_index_entries >= 3);
    assert_eq!(
        now.adapter_bytes_upper_bound(),
        (allocation + 2 * MAX_CLOSE_MESSAGE_LEN + 11) as u64
    );
    assert_eq!(
        now.transport_queued_bytes(),
        now.transport_stream_send_bytes as u64
            + now.transport_stream_receive_bytes
            + now.transport_datagram_send_bytes as u64
            + now.transport_datagram_receive_bytes as u64
    );

    for op in [first, second] {
        assert!(matches!(
            outcome(&mut helper, op),
            WebTransportOutcome::Write(WebTransportStreamWriteOutcome::Rejected {
                error: WebTransportSelectionError::UnknownStream,
                ..
            })
        ));
    }
}

/// Lends a payload that is to come back unseen with the given error.
fn lease_rejected(
    helper: &mut DriverTestHelper,
    session_id: u64,
    stream_id: u64,
    id: u64,
    payload: &[u8],
    error: WebTransportSelectionError,
) {
    let op = helper
        .driver
        .try_write_stream_lease(session_id, stream_id, mock_write_lease(id, payload), false)
        .unwrap();
    helper.work_loop_iter().unwrap();
    expect_lease_rejected(helper, op, id, error);
}

fn expect_lease_rejected(
    helper: &mut DriverTestHelper,
    op: u64,
    id: u64,
    error: WebTransportSelectionError,
) {
    match outcome(helper, op) {
        WebTransportOutcome::Lease(rejected) => {
            assert_eq!(rejected.verdict, LeaseVerdict::Rejected(error));
            assert!(!rejected.fin);
            assert_eq!(rejected.lease.id, id);
            assert_eq!(mock_write_lease_log(&rejected.lease).exposures, 0);
        }
        other => panic!("unexpected answer: {other:?}"),
    }
}

fn datagram_rejected(
    helper: &mut DriverTestHelper,
    session_id: u64,
    payload: &[u8],
    error: WebTransportSelectionError,
) {
    let op = helper
        .driver
        .try_send_datagram(session_id, &dgram_buf(payload))
        .unwrap();
    helper.work_loop_iter().unwrap();
    assert_eq!(
        outcome(helper, op),
        WebTransportOutcome::DatagramSent(WebTransportDatagramSendOutcome::Rejected {
            error,
            datagram: payload.to_vec(),
        })
    );
}

#[test]
fn webtransport_selected_apis_reject_pending_terminal_and_stale_ids() {
    let mut helper = webtransport_helper(webtransport_settings());
    start_webtransport_driver(&mut helper).unwrap();
    let session_id = open_pending_webtransport_session(&mut helper).unwrap();

    let error = WebTransportSelectionError::UnknownSession;
    lease_rejected(&mut helper, session_id + 4, 1, 50, b"unknown", error);

    let error = WebTransportSelectionError::PendingSession;
    lease_rejected(&mut helper, session_id, 1, 51, b"pending", error);
    assert_eq!(asked(&mut helper, open_bidi(session_id)), open_rejected(error));
    datagram_rejected(&mut helper, session_id, b"pending", error);

    assert!(send_response_status(&mut helper, session_id, 403));
    helper.advance_and_run_loop().unwrap();
    assert!(expect_session_rejected(&mut helper, session_id, 403));
    assert_eq!(helper.peer_poll(), Some((session_id, PeerEvent::Headers)));

    let error = WebTransportSelectionError::TerminalSession;
    assert_eq!(asked(&mut helper, open_bidi(session_id)), open_rejected(error));
    datagram_rejected(&mut helper, session_id, b"terminal", error);
    lease_rejected(&mut helper, session_id, 1, 52, b"terminal", error);

    helper.peer_send_body(session_id, Vec::new(), true).unwrap();
    assert!(matches!(
        helper.app_send(session_id, OutboundFrame::Body(Vec::new(), true)),
        FrameAdmission::Accepted
    ));
    helper.advance_and_run_loop().unwrap();
    while helper.peer_poll().is_some() {}
    helper.advance_and_run_loop().unwrap();
    assert!(!helper
        .driver
        .core
        .session
        .as_ref()
        .unwrap()
        .is_session(session_id));

    let error = WebTransportSelectionError::StaleSession;
    assert_eq!(asked(&mut helper, open_bidi(session_id)), open_rejected(error));
    datagram_rejected(&mut helper, session_id, b"stale", error);
    lease_rejected(&mut helper, session_id, 1, 53, b"stale", error);
}

/// Plain writes are refused with the same errors, and come back.
#[test]
fn plain_writes_are_refused_without_a_session() {
    let mut helper = webtransport_helper(webtransport_settings());
    start_webtransport_driver(&mut helper).unwrap();
    let session_id = open_pending_webtransport_session(&mut helper).unwrap();
    for (id, error) in [
        (session_id + 4, WebTransportSelectionError::UnknownSession),
        (session_id, WebTransportSelectionError::PendingSession),
    ] {
        assert_eq!(
            write(&mut helper, id, 1, b"kept", false),
            WebTransportStreamWriteOutcome::Rejected {
                error,
                data: b"kept".to_vec(),
                fin: false,
            }
        );
    }
}

#[test]
fn webtransport_selected_apis_fail_closed_during_close_race() {
    let mut helper = DriverTestHelper::with_pipe_and_http3_settings(
        Role::Server,
        backpressured_webtransport_pipe(),
        webtransport_settings(),
    );
    assert_eq!(accept_webtransport_session(&mut helper), Some(0));
    let session_id = 0;

    let stream_id = match asked(&mut helper, open_bidi(session_id)) {
        WebTransportOutcome::Open(WebTransportOpenStreamOutcome::Opened { stream_id }) => stream_id,
        other => panic!("unexpected answer: {other:?}"),
    };
    assert!(matches!(
        helper.app_send(session_id, OutboundFrame::Body(vec![b'p'; 48], false)),
        FrameAdmission::Accepted
    ));
    helper
        .driver
        .close_webtransport_session(session_id, 5, "closing".to_string())
        .unwrap();
    assert_eq!(helper.process_commands(), 1);
    assert!(helper.driver.core.session.as_ref().unwrap().is_closing());

    let write = helper
        .driver
        .try_write_stream(session_id, stream_id, b"after close".to_vec(), false)
        .unwrap();
    let datagram = ask(
        &mut helper,
        WebTransportRequest::SendDatagram {
            session_id,
            datagram: b"after close".to_vec(),
        },
    );
    let late_open = ask(
        &mut helper,
        open(session_id, WebTransportStreamDirection::Uni),
    );
    let closing_lease = helper
        .driver
        .try_write_stream_lease(
            session_id,
            stream_id,
            mock_write_lease(54, b"closing"),
            false,
        )
        .unwrap();
    helper.work_loop_iter().unwrap();

    let error = WebTransportSelectionError::ClosingSession;
    assert_eq!(
        outcome(&mut helper, write),
        WebTransportOutcome::Write(WebTransportStreamWriteOutcome::Rejected {
            error,
            data: b"after close".to_vec(),
            fin: false,
        })
    );
    assert_eq!(
        outcome(&mut helper, datagram),
        WebTransportOutcome::DatagramSent(WebTransportDatagramSendOutcome::Rejected {
            error,
            datagram: b"after close".to_vec(),
        })
    );
    assert_eq!(outcome(&mut helper, late_open), open_rejected(error));
    expect_lease_rejected(&mut helper, closing_lease, 54, error);
}

#[test]
fn webtransport_session_terminal_wait_is_stream_free_and_latched() {
    let mut helper = webtransport_helper(webtransport_settings());
    start_webtransport_driver(&mut helper).unwrap();
    let session_id = open_pending_webtransport_session(&mut helper).unwrap();
    let credit = bidi_left(&helper);

    let wait = wait_for_session_terminal(&mut helper, session_id).unwrap();
    helper.work_loop_iter().unwrap();
    assert!(!helper.driver.is_answered(wait));
    assert_eq!(
        helper
            .driver
            .core
            .session
            .as_ref()
            .unwrap()
            .active_stream_count(),
        0
    );
    assert_eq!(bidi_left(&helper), credit);

    assert!(accept_pending_webtransport_session(&mut helper, session_id));
    assert!(!helper.driver.is_answered(wait));
    helper.peer_send_body(session_id, Vec::new(), true).unwrap();
    helper.advance_and_run_loop().unwrap();
    assert!(expect_session_terminated(
        &mut helper,
        session_id,
        WebTransportSessionCloseReason::Clean,
    ));
    let terminated = session_end(WebTransportSessionTerminalOutcome::Terminated {
        session_id,
        reason: WebTransportSessionCloseReason::Clean,
    });
    assert_eq!(outcome(&mut helper, wait), terminated);

    let late = wait_for_session_terminal(&mut helper, session_id).unwrap();
    helper.work_loop_iter().unwrap();
    assert_eq!(outcome(&mut helper, late), terminated);

    let queued_before_teardown = wait_for_session_terminal(&mut helper, session_id).unwrap();
    drop_connection(&mut helper);
    assert_eq!(outcome(&mut helper, queued_before_teardown), terminated);
}

#[test]
fn webtransport_session_terminal_wait_cancels_and_reuses_capacity() {
    let mut settings = webtransport_settings();
    settings.webtransport_max_session_terminal_waiters = 1;
    settings.webtransport_max_session_terminal_waiters_per_session = 1;
    let mut helper = webtransport_helper(settings);
    assert_eq!(accept_webtransport_session(&mut helper), Some(0));
    let session_id = 0;

    let first = wait_for_session_terminal(&mut helper, session_id).unwrap();
    helper.work_loop_iter().unwrap();
    assert!(!helper.driver.is_answered(first));

    let saturated = wait_for_session_terminal(&mut helper, session_id).unwrap();
    helper.work_loop_iter().unwrap();
    assert_eq!(
        outcome(&mut helper, saturated),
        session_end(WebTransportSessionTerminalOutcome::ResourceLimit { session_id })
    );

    helper.driver.cancel(first);
    helper.work_loop_iter().unwrap();
    let now = stats(&mut helper);
    assert_eq!(now.session_terminal_waiters, 0);
    assert_eq!(now.max_session_terminal_waiters, 1);
    assert_eq!(now.max_session_terminal_waiters_per_session, 1);
    assert_eq!(now.session_terminal_waiter_saturation_total, 1);

    let replacement = wait_for_session_terminal(&mut helper, session_id).unwrap();
    helper.work_loop_iter().unwrap();
    assert!(!helper.driver.is_answered(replacement));
    helper.peer_send_body(session_id, Vec::new(), true).unwrap();
    helper.advance_and_run_loop().unwrap();
    assert!(expect_session_terminated(
        &mut helper,
        session_id,
        WebTransportSessionCloseReason::Clean,
    ));
    assert_eq!(
        outcome(&mut helper, replacement),
        session_end(WebTransportSessionTerminalOutcome::Terminated {
            session_id,
            reason: WebTransportSessionCloseReason::Clean,
        })
    );
}

#[test]
fn webtransport_session_terminal_wait_types_absence_and_teardown() {
    let mut helper = webtransport_helper(webtransport_settings());
    assert_eq!(accept_webtransport_session(&mut helper), Some(0));
    let session_id = 0;

    let unknown = wait_for_session_terminal(&mut helper, 4000).unwrap();
    helper.work_loop_iter().unwrap();
    assert_eq!(
        outcome(&mut helper, unknown),
        session_end(WebTransportSessionTerminalOutcome::UnknownSession { session_id: 4000 })
    );

    helper.peer_send_body(session_id, Vec::new(), true).unwrap();
    helper.advance_and_run_loop().unwrap();
    assert!(expect_session_terminated(
        &mut helper,
        session_id,
        WebTransportSessionCloseReason::Clean,
    ));
    assert!(matches!(
        helper.app_send(session_id, OutboundFrame::Body(Vec::new(), true)),
        FrameAdmission::Accepted
    ));
    helper.advance_and_run_loop().unwrap();
    while helper.peer_poll().is_some() {}
    helper.advance_and_run_loop().unwrap();
    assert!(!helper
        .driver
        .core
        .session
        .as_ref()
        .unwrap()
        .is_session(session_id));

    let stale = wait_for_session_terminal(&mut helper, session_id).unwrap();
    helper.work_loop_iter().unwrap();
    assert_eq!(
        outcome(&mut helper, stale),
        session_end(WebTransportSessionTerminalOutcome::StaleSession { session_id })
    );

    let mut closing = webtransport_helper(webtransport_settings());
    assert_eq!(accept_webtransport_session(&mut closing), Some(0));
    let connection = wait_for_session_terminal(&mut closing, 0).unwrap();
    closing.work_loop_iter().unwrap();
    assert!(!closing.driver.is_answered(connection));
    drop_connection(&mut closing);
    assert_eq!(
        outcome(&mut closing, connection),
        session_end(WebTransportSessionTerminalOutcome::Terminated {
            session_id: 0,
            reason: WebTransportSessionCloseReason::ConnectionClosed,
        })
    );
}

#[test]
fn retirement_outlasts_turns_and_refusals() {
    let (mut helper, session_id) = accepted(webtransport_settings());
    let stream_id = open_server_webtransport_bidi(&mut helper, session_id).unwrap();
    receive_bidi(&mut helper, session_id, stream_id);
    let retired = WebTransportStreamSendTerminalOutcome::Retired {
        session_id,
        stream_id,
    };
    let retirement = retire_send_terminal(&mut helper, session_id, stream_id).unwrap();
    helper.work_loop_iter().unwrap();
    assert_eq!(outcome(&mut helper, retirement), send_end(retired));
    for turn in 0..8 {
        if turn == 3 {
            peer_stop(&mut helper, stream_id, 91);
        }
        helper.advance_and_run_loop().unwrap();
        let wait = wait_for_send_terminal(&mut helper, session_id, stream_id).unwrap();
        helper.work_loop_iter().unwrap();
        assert_eq!(outcome(&mut helper, wait), send_end(retired));
    }
}

#[test]
fn opened_streams_have_growing_numbers() {
    let (mut helper, session_id) = accepted(webtransport_settings());
    let first = open_server_webtransport_bidi(&mut helper, session_id).unwrap();
    assert_eq!(first, 1);
    receive_bidi(&mut helper, session_id, first);
    let second = open_server_webtransport_bidi(&mut helper, session_id).unwrap();
    assert_eq!(second, 5);
    receive_bidi(&mut helper, session_id, second);
}
