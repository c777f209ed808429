use h3_driver::body_buf::{body_recv_buf_size, BodyRecvBuf, MAX_BUF_SIZE, MIN_BODY_RECV_BUF_SIZE};
use h3_driver::conn_close::{CloseMetrics, ConnectionError};
use h3_driver::headers::{
    datagram_flow_id, decimal_digits, find_value, flow_request_headers, is_webtransport_connect,
    make_request_headers, read_decimal, response_headers, response_status, session_request_headers,
    Header,
};
use h3_driver::lane::{Lane, LaneError};
use h3_driver::multicast::{multicast_ack, Multicast};
use h3_driver::server_side_driver::{webtransport_helper, webtransport_settings};
use h3_driver::wire::capsule::{
    webtransport_close_capsule, CapsuleRead, CapsuleReader, MAX_CLOSE_MESSAGE_LEN,
};
use h3_driver::wire::datagram::{
    decode_datagram, dgram_buf, dgram_payload, encode_datagram, MAX_DATAGRAM_SIZE,
};
use h3_driver::wire::error_code::{http3_error_to_webtransport, webtransport_error_to_http3};
use h3_driver::wire::stream_prefix::{
    read_stream_prefix, StreamPrefix, WebTransportStreamDirection, WEBTRANSPORT_BIDI_STREAM_TYPE,
};
use h3_driver::wire::varint::{decode_varint, encode_varint, varint_len};
use h3_driver::wt::datagrams::{DatagramLimits, DatagramQueue, DatagramRead, PendingDatagram};
use h3_driver::wt::requests::{WebTransportDatagramSendOutcome, WebTransportRequest};
use h3_driver::wt::snapshot::{PathSnapshot, SnapshotEnd, SnapshotOutcome, SnapshotSlot};
use h3_driver::wt::stream_ends::{
    SendFact, StreamEndings, WebTransportStreamReceiveTerminal,
    WebTransportStreamSendTerminalOutcome,
};
use h3_driver::wt::types::WebTransportSelectionError;
use h3_driver::wt::waiters::WaitList;
use h3_driver::wt::write_lease::{
    LeaseAdmission, LeaseLedger, WebTransportStreamWriteLeaseLimit,
    WebTransportStreamWriteLeaseProgress,
};

fn varint(value: u64) -> Vec<u8> {
    let mut bytes = Vec::new();
    encode_varint(value, &mut bytes);
    bytes
}

#[test]
fn varints_have_their_exact_bytes() {
    assert_eq!(varint(0), [0x00]);
    assert_eq!(varint(37), [0x25]);
    assert_eq!(varint(63), [0x3f]);
    assert_eq!(varint(64), [0x40, 0x40]);
    assert_eq!(varint(15_293), [0x7b, 0xbd]);
    assert_eq!(varint(494_878_333), [0x9d, 0x7f, 0x3e, 0x7d]);
    assert_eq!(
        varint(151_288_809_941_952_652),
        [0xc2, 0x19, 0x7c, 0x5e, 0xff, 0x14, 0xe8, 0x8c]
    );
    assert_eq!(varint((1 << 62) - 1), [0xff; 8]);
    assert_eq!(varint_len(63), 1);
    assert_eq!(varint_len(64), 2);
    assert_eq!(varint_len(16_384), 4);
    assert_eq!(varint_len(1 << 30), 8);
}

#[test]
fn varints_round_trip_and_wait_for_their_bytes() {
    for value in [0, 63, 64, 16_383, 16_384, (1 << 30) - 1, 1 << 30, (1 << 62) - 1] {
        let mut bytes = vec![0xaa];
        encode_varint(value, &mut bytes);
        assert_eq!(
            decode_varint(&bytes, 1),
            Some((value, 1 + varint_len(value)))
        );
        bytes.pop();
        assert_eq!(decode_varint(&bytes, 1), None);
    }
    assert_eq!(decode_varint(&Vec::new(), 0), None);
}

#[test]
fn application_errors_skip_the_reserved_codes() {
    assert_eq!(webtransport_error_to_http3(0), 0x52e4_a40f_a8db);
    assert_eq!(webtransport_error_to_http3(29), 0x52e4_a40f_a8f8);
    assert_eq!(webtransport_error_to_http3(30), 0x52e4_a40f_a8fa);
    assert_eq!(webtransport_error_to_http3(u32::MAX), 0x52e5_ac98_3162);
    for error in [0, 1, 29, 30, 59, 60, 0x1020_3040, u32::MAX] {
        let code = webtransport_error_to_http3(error);
        assert_eq!(http3_error_to_webtransport(code), Some(error));
    }
    assert_eq!(http3_error_to_webtransport(0x52e4_a40f_a8da), None);
    assert_eq!(http3_error_to_webtransport(0x52e4_a40f_a8f9), None);
    assert_eq!(http3_error_to_webtransport(0x52e5_ac98_3163), None);
}

#[test]
fn stream_prefixes_are_told_apart() {
    let mut bytes = varint(WEBTRANSPORT_BIDI_STREAM_TYPE);
    bytes.extend(varint(4));
    bytes.extend(b"payload");
    assert_eq!(
        read_stream_prefix(WebTransportStreamDirection::Bidi, &bytes),
        StreamPrefix::Complete {
            session_id: 4,
            prefix_len: 3,
        }
    );
    assert_eq!(
        read_stream_prefix(WebTransportStreamDirection::Uni, &bytes),
        StreamPrefix::Foreign
    );
    bytes.truncate(2);
    assert_eq!(
        read_stream_prefix(WebTransportStreamDirection::Bidi, &bytes),
        StreamPrefix::Incomplete
    );
}

#[test]
fn close_capsules_survive_fragmentation() {
    let bytes = webtransport_close_capsule(0x1020_3040, "gr\u{fc}\u{df}e");
    assert_eq!(
        bytes,
        [
            0x68, 0x43, 0x0b, 0x10, 0x20, 0x30, 0x40, b'g', b'r', 0xc3, 0xbc, 0xc3, 0x9f, b'e'
        ]
    );
    let mut reader = CapsuleReader::new();
    for (i, byte) in bytes.iter().enumerate() {
        reader.hold(&[*byte]);
        match reader.read() {
            CapsuleRead::Waiting => assert!(i + 1 < bytes.len()),
            CapsuleRead::Closed {
                error_code,
                message,
            } => {
                assert_eq!(i + 1, bytes.len());
                assert_eq!(error_code, 0x1020_3040);
                assert_eq!(message, "gr\u{fc}\u{df}e");
            }
            CapsuleRead::Malformed => panic!("the capsule is well formed"),
        }
    }
}

#[test]
fn close_capsules_carry_text() {
    let mut bytes = webtransport_close_capsule(1, "ab");
    let last = bytes.len() - 1;
    bytes[last] = 0xff;
    let mut reader = CapsuleReader::new();
    reader.hold(&bytes);
    assert!(matches!(reader.read(), CapsuleRead::Malformed));

    let mut short = varint(0x2843);
    short.extend([2, 0, 1]);
    let mut reader = CapsuleReader::new();
    reader.hold(&short);
    assert!(matches!(reader.read(), CapsuleRead::Malformed));
}

#[test]
fn long_close_capsules_differ_and_are_cut_short_nowhere() {
    let one = "x".repeat(2000);
    let other = format!("{}y", "x".repeat(1999));
    let bytes = webtransport_close_capsule(7, &one);
    assert_eq!(bytes.len(), 2 + 2 + 4 + 2000);
    assert_ne!(bytes, webtransport_close_capsule(7, &other));
    assert_ne!(bytes, webtransport_close_capsule(8, &one));
    for len in 0..bytes.len() {
        let mut reader = CapsuleReader::new();
        reader.hold(&bytes[..len]);
        assert!(!matches!(reader.read(), CapsuleRead::Closed { .. }));
    }

    // The longest message that a peer takes.
    let longest = "z".repeat(MAX_CLOSE_MESSAGE_LEN);
    let bytes = webtransport_close_capsule(9, &longest);
    let mut reader = CapsuleReader::new();
    reader.hold(&bytes[..bytes.len() - 1]);
    assert!(matches!(reader.read(), CapsuleRead::Waiting));
    reader.hold(&bytes[bytes.len() - 1..]);
    match reader.read() {
        CapsuleRead::Closed {
            error_code,
            message,
        } => {
            assert_eq!(error_code, 9);
            assert_eq!(message, longest);
        }
        _ => panic!("the capsule is well formed"),
    }
}

#[test]
fn datagrams_carry_their_flow() {
    assert_eq!(encode_datagram(64, b"hi"), [0x40, 0x40, b'h', b'i']);
    assert_eq!(
        decode_datagram(&vec![0x40, 0x40, b'h', b'i']),
        Some((64, b"hi".to_vec()))
    );
    assert_eq!(decode_datagram(&vec![0x40]), None);
    let buffer = dgram_buf(b"payload");
    assert_eq!(buffer.as_slice(), b"payload");
    assert_eq!(dgram_payload(&buffer), b"payload");
}

#[test]
fn socket_datagrams_are_admitted_or_come_back() {
    assert_eq!(MAX_DATAGRAM_SIZE, datagram_socket::MAX_DATAGRAM_SIZE);
    let mut settings = webtransport_settings();
    settings.webtransport_command_capacity = 1;
    let mut helper = webtransport_helper(settings);

    let oversized = vec![0xa5; datagram_socket::MAX_DATAGRAM_SIZE + 1];
    assert_eq!(
        helper.driver.try_send_datagram(0, &dgram_buf(&oversized)),
        Err(WebTransportDatagramSendOutcome::TooLarge {
            max: datagram_socket::MAX_DATAGRAM_SIZE,
            datagram: oversized,
        })
    );
    assert_eq!(
        helper.driver.try_send_datagram(0, &dgram_buf(b"first")),
        Ok(0)
    );
    assert_eq!(
        helper.driver.try_send_datagram(0, &dgram_buf(b"second")),
        Err(WebTransportDatagramSendOutcome::QueueFull(
            b"second".to_vec()
        ))
    );
    helper.driver.go_away();
    assert_eq!(
        helper.driver.try_send_datagram(0, &dgram_buf(b"third")),
        Err(WebTransportDatagramSendOutcome::Rejected {
            error: WebTransportSelectionError::ConnectionClosed,
            datagram: b"third".to_vec(),
        })
    );
    assert!(matches!(
        helper.driver.submit(WebTransportRequest::RetentionStats),
        Err(LaneError::Closed(WebTransportRequest::RetentionStats))
    ));
}

#[test]
fn lanes_are_bounded_and_first_in_first_out() {
    let mut lane: Lane<String> = Lane::new(2);
    assert_eq!(lane.capacity(), 2);
    assert!(lane.try_send("a".to_string()).is_ok());
    assert!(lane.try_send("b".to_string()).is_ok());
    assert!(matches!(
        lane.try_send("c".to_string()),
        Err(LaneError::Full(item)) if item == "c"
    ));
    assert_eq!(lane.len(), 2);
    assert_eq!(lane.try_recv(), Some("a".to_string()));
    assert!(lane.try_send("d".to_string()).is_ok());
    lane.close();
    assert!(lane.is_closed());
    assert!(matches!(
        lane.try_send("e".to_string()),
        Err(LaneError::Closed(item)) if item == "e"
    ));
    assert_eq!(lane.try_recv(), Some("b".to_string()));
    assert_eq!(lane.try_recv(), Some("d".to_string()));
    assert_eq!(lane.try_recv(), None);
}

#[test]
fn body_buffers_are_used_up_before_they_are_replaced() {
    assert_eq!(body_recv_buf_size(0), MIN_BODY_RECV_BUF_SIZE);
    assert_eq!(body_recv_buf_size(5000), 5000);
    assert_eq!(body_recv_buf_size(1 << 20), MAX_BUF_SIZE);
    let mut buf = BodyRecvBuf::unallocated();
    assert_eq!(buf.room, None);
    buf.room = Some(100);
    buf.release();
    assert_eq!(buf.room, None);
}

#[test]
fn closes_are_counted_by_who_closed() {
    let app = ConnectionError {
        is_app: true,
        error_code: 0x100,
    };
    let transport = ConnectionError {
        is_app: false,
        error_code: 1,
    };
    let mut metrics = CloseMetrics::new();
    metrics.record(false, None, Some(app));
    metrics.record(false, None, Some(transport));
    metrics.record(true, Some(transport), None);
    metrics.record(true, Some(app), None);
    metrics.record(false, None, None);
    assert_eq!(metrics.peer_h3, 1);
    assert_eq!(metrics.peer_quic, 1);
    assert_eq!(metrics.local_quic, 1);
    assert_eq!(metrics.local_h3, 1);
}

#[test]
fn headers_tell_what_a_request_asks_for() {
    assert_eq!(decimal_digits(0), b"0");
    assert_eq!(decimal_digits(404), b"404");
    assert_eq!(decimal_digits(u16::MAX), b"65535");
    assert_eq!(read_decimal(&b"200".to_vec()), Some(200));
    assert_eq!(read_decimal(&b"65536".to_vec()), None);
    assert_eq!(read_decimal(&b"2x0".to_vec()), None);
    assert_eq!(read_decimal(&Vec::new()), None);

    assert_eq!(response_status(&response_headers(103)), Some(103));
    assert_eq!(response_status(&make_request_headers("GET")), None);
    assert!(is_webtransport_connect(&session_request_headers()));
    assert!(!is_webtransport_connect(&make_request_headers("CONNECT")));
    assert!(datagram_flow_id(&flow_request_headers()).is_some());
    assert_eq!(datagram_flow_id(&make_request_headers("GET")), None);
    let headers = vec![Header::new("name", "value")];
    assert_eq!(find_value(&headers, "name"), Some(&b"value".to_vec()));
    assert_eq!(find_value(&headers, "other"), None);
}

#[test]
fn multicast_channels_carry_once_acknowledged() {
    let mut multicast = Multicast::new();
    assert!(!multicast.takes_datagrams(&None));
    multicast.process_ack(multicast_ack(b"one"));
    assert!(!multicast.takes_datagrams(&None));
    assert!(multicast.takes_datagrams(&Some(b"one".to_vec())));
    assert!(!multicast.takes_datagrams(&Some(b"two".to_vec())));
    multicast.set_default(Some(b"one".to_vec()));
    assert!(multicast.takes_datagrams(&None));
    assert!(!multicast.takes_datagrams(&Some(b"two".to_vec())));
}

fn pending(flow_id: u64, payload: &[u8]) -> PendingDatagram {
    PendingDatagram {
        flow_id,
        payload: payload.to_vec(),
        allocation: payload.len(),
    }
}

#[test]
fn lost_datagrams_are_reported_once_and_first() {
    let mut queue = DatagramQueue::new(DatagramLimits {
        max_count: 3,
        max_count_per_flow: 2,
        max_bytes: 100,
        max_bytes_per_flow: 100,
    });
    assert!(queue.arrive(pending(0, b"a")));
    assert!(queue.arrive(pending(0, b"bb")));
    assert!(!queue.arrive(pending(0, b"ccc")));
    assert!(!queue.arrive(pending(0, b"dddd")));
    assert!(queue.arrive(pending(1, b"e")));
    assert!(!queue.arrive(pending(2, b"f")));
    assert_eq!(queue.usage(), (3, 4, 4));

    assert!(queue.is_readable(0));
    assert!(matches!(
        queue.read(0),
        DatagramRead::Overflow {
            datagrams: 2,
            bytes: 7,
        }
    ));
    assert!(matches!(queue.read(0), DatagramRead::Datagram(payload) if payload == b"a"));
    assert!(matches!(queue.read(0), DatagramRead::Datagram(payload) if payload == b"bb"));
    assert!(matches!(queue.read(0), DatagramRead::Empty));
    assert!(!queue.is_readable(0));
    assert!(queue.is_readable(2));
    queue.discard(2);
    assert!(!queue.is_readable(2));
    assert!(queue.is_readable(1));
    queue.clear();
    assert!(!queue.is_readable(1));
}

#[test]
fn waiters_are_bounded_and_leave_in_order() {
    let mut waiters = WaitList::new(3);
    assert!(waiters.register(10, 1));
    assert!(waiters.register(11, 2));
    assert!(waiters.register(12, 1));
    assert!(!waiters.register(13, 2));
    assert_eq!(waiters.saturation_total(), 1);
    assert_eq!(waiters.first(1), Some(10));
    assert_eq!(waiters.settle(1), [10, 12]);
    assert_eq!(waiters.len(), 1);
    waiters.cancel(11);
    assert_eq!(waiters.first(2), None);
    assert_eq!(waiters.settle_all().len(), 0);
    assert_eq!(waiters.bound(), 3);
}

#[test]
fn stream_ends_are_latched() {
    let mut endings = StreamEndings::new(1);
    let code = webtransport_error_to_http3(5);
    assert_eq!(endings.await_send_end(1, 0, 4), None);
    assert_eq!(endings.on_peer_stop(4, code), [1]);
    assert_eq!(
        endings.await_send_end(2, 0, 4),
        Some(WebTransportStreamSendTerminalOutcome::Stopped {
            stream_id: 4,
            wire_error_code: code,
            application_error_code: Some(5),
        })
    );
    assert!(endings.on_peer_stop(4, code + 1).is_empty());
    assert_eq!(
        endings.send_fact(4),
        SendFact::Stopped {
            wire_error_code: code
        }
    );

    // There is room to remember one refusal.
    endings.on_peer_stop(8, code);
    assert_eq!(endings.send_fact(8), SendFact::Lost);
    assert!(endings.is_overloaded());
    assert_eq!(endings.state_saturation_total(), 1);

    endings.retire_send(4);
    assert_eq!(endings.send_fact(4), SendFact::Retired);
    endings.close_send(12);
    assert_eq!(endings.send_fact(12), SendFact::Closed);

    endings.receive_end(12, WebTransportStreamReceiveTerminal::Fin);
    assert_eq!(endings.received_count(), 1);
    endings.observe(12);
    endings.retire_receive(12);
    assert_eq!(endings.received_count(), 0);
    endings.forget(12);
    assert!(!endings.get(12).send_closed);
}

#[test]
fn lease_ledgers_judge_size_lane_and_room_in_order() {
    let mut ledger = LeaseLedger::new(2, 8, 6);
    assert_eq!(ledger.max_retained, 12);
    assert_eq!(
        ledger.offer(9, 9, false, false),
        LeaseAdmission::TooLarge {
            limit: WebTransportStreamWriteLeaseLimit::Payload,
            max: 8,
            actual: 9,
        }
    );
    assert_eq!(
        ledger.offer(8, 7, false, false),
        LeaseAdmission::TooLarge {
            limit: WebTransportStreamWriteLeaseLimit::RetainedBytes,
            max: 6,
            actual: 7,
        }
    );
    assert_eq!(
        ledger.offer(4, 4, false, false),
        LeaseAdmission::ConnectionClosed
    );
    assert_eq!(ledger.offer(4, 4, true, false), LeaseAdmission::QueueFull);
    assert_eq!(ledger.offer(4, 4, true, true), LeaseAdmission::Admitted);
    assert_eq!(ledger.offer(6, 6, true, true), LeaseAdmission::Admitted);
    assert_eq!(ledger.offer(0, 0, true, true), LeaseAdmission::ResourceLimit);
    ledger.give_memory_back(4);
    assert_eq!((ledger.leases, ledger.retained), (2, 6));
    ledger.give_back(0);
    assert_eq!((ledger.leases, ledger.retained), (1, 6));
    assert_eq!(ledger.offer(0, 0, true, true), LeaseAdmission::Admitted);
    ledger.note_abandoned(WebTransportStreamWriteLeaseProgress::NeverExposed);
    ledger.note_abandoned(WebTransportStreamWriteLeaseProgress::ExposedKnownZero);
    ledger.note_abandoned(WebTransportStreamWriteLeaseProgress::AcceptedPartial { accepted: 1 });
    assert_eq!(ledger.abandoned_unexposed_total, 1);
    assert_eq!(ledger.abandoned_zero_total, 1);
    assert_eq!(ledger.abandoned_unknown_total, 1);
    assert_eq!(ledger.too_large_total, 2);
    assert_eq!(ledger.queue_full_total, 1);
    assert_eq!(ledger.resource_limit_total, 1);
    assert_eq!(ledger.admitted_total, 3);
}

#[test]
fn snapshot_slots_end_once() {
    let mut slot = SnapshotSlot::new();
    assert_eq!(slot.request(true), None);
    slot.sample(PathSnapshot {
        path_generation: 0,
        smoothed_rtt_micros: 0,
        congestion_window_bytes: 0,
        bytes_in_flight: 0,
    });
    slot.end(SnapshotEnd::ConnectionClosed);
    slot.end(SnapshotEnd::DriverGone);
    assert_eq!(slot.take(), Some(SnapshotOutcome::ConnectionClosed));
    assert_eq!(slot.request(true), Some(SnapshotOutcome::ConnectionClosed));
}
