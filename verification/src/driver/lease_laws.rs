//! Which writes and leases are taken, what they keep alive, and when that is given back.

use vstd::prelude::*;

use crate::driver::commands::DriverState;
use crate::driver::controller::refusal;
use crate::driver::desk::DeskState;
use crate::table::{distinct, lemma_lookup_after_put, lemma_lookup_after_without, lookup};
use crate::wt::requests::{
    answer_position, answer_to, lemma_answer_position, Answer, DatagramSendAnswer, Queued,
    WebTransportRequest,
};
use crate::wt::snapshot::SnapshotStage;
use crate::wt::types::WebTransportSelectionError;
use crate::wt::write_lease::{
    LeaseAdmission, LeaseLedger, LeaseState, LeaseVerdict, MockWriteLease,
    WebTransportStreamWriteLeaseLimit, WebTransportStreamWriteLeaseProgress,
    WebTransportStreamWriteRetry,
};

verus! {

/// Whether a counter has counted one more. It stays at the largest number.
pub open spec fn one_more(before: u64, after: u64) -> bool {
    after == before + 1 || (before == 0xffff_ffff_ffff_ffff && after == before)
}

/// The totals of a ledger.
pub open spec fn totals(ledger: LeaseLedger) -> Seq<u64> {
    seq![
        ledger.admitted_total,
        ledger.queue_full_total,
        ledger.resource_limit_total,
        ledger.too_large_total,
        ledger.abandoned_unexposed_total,
        ledger.abandoned_zero_total,
        ledger.abandoned_unknown_total,
    ]
}

/// Whether one total of a ledger has counted one more, and the others stayed.
pub open spec fn counts_one(before: LeaseLedger, after: LeaseLedger, which: int) -> bool {
    forall|i: int|
        0 <= i < 7 ==> if i == which {
            one_more(totals(before)[i], #[trigger] totals(after)[i])
        } else {
            totals(before)[i] == totals(after)[i]
        }
}

/// Whether the bounds of two ledgers are the same.
pub open spec fn same_bounds(a: LeaseLedger, b: LeaseLedger) -> bool {
    a.max_payload == b.max_payload && a.max_retained_each == b.max_retained_each && a.max_leases
        == b.max_leases && a.max_retained == b.max_retained
}

/// A lease is taken exactly if its payload and its memory are within their bounds, the lane
/// is open and has room, and there is a place and enough memory left for it. What is wrong
/// with the lease itself is told first, then what is wrong with the lane, then what is
/// missing. One that is taken has a place and its memory from then on; one that is not has
/// neither. Every outcome but that of a closed lane has its own count.
pub proof fn lemma_lease_is_taken_if_it_fits(
    ledger: LeaseLedger,
    len: usize,
    memory: usize,
    open: bool,
    room: bool,
)
    requires
        ledger.wf(),
    ensures
        ({
            let admission = ledger.judged(len, memory, open, room);
            let after = ledger.entered(admission, memory);
            let small = len <= ledger.max_payload && memory <= ledger.max_retained_each;
            let fits = ledger.leases + 1 <= ledger.max_leases && ledger.retained + memory
                <= ledger.max_retained;
            &&& same_bounds(ledger, after)
            &&& admission == LeaseAdmission::Admitted <==> small && open && room && fits
            &&& len > ledger.max_payload ==> admission == (LeaseAdmission::TooLarge {
                limit: WebTransportStreamWriteLeaseLimit::Payload,
                max: ledger.max_payload,
                actual: len,
            })
            &&& len <= ledger.max_payload && !small ==> admission == (LeaseAdmission::TooLarge {
                limit: WebTransportStreamWriteLeaseLimit::RetainedBytes,
                max: ledger.max_retained_each,
                actual: memory,
            })
            &&& small && !open ==> admission == LeaseAdmission::ConnectionClosed && after
                == ledger
            &&& small && open && !room ==> admission == LeaseAdmission::QueueFull && counts_one(
                ledger,
                after,
                1,
            )
            &&& small && open && room && !fits ==> admission == LeaseAdmission::ResourceLimit
                && counts_one(ledger, after, 2)
            &&& !small ==> counts_one(ledger, after, 3)
            &&& if admission == LeaseAdmission::Admitted {
                after.leases == ledger.leases + 1 && after.retained == ledger.retained + memory
                    && counts_one(ledger, after, 0)
            } else {
                after.leases == ledger.leases && after.retained == ledger.retained
            }
        }),
{
}

/// What a lease keeps alive is given back in full: after it is back, as many leases and as
/// much memory are out as before it was taken. Memory that is given back alone leaves the
/// place taken. No total changes.
pub proof fn lemma_lease_gives_everything_back(
    ledger: LeaseLedger,
    len: usize,
    memory: usize,
)
    requires
        ledger.wf(),
        ledger.judged(len, memory, true, true) == LeaseAdmission::Admitted,
    ensures
        ({
            let taken = ledger.entered(LeaseAdmission::Admitted, memory);
            let half = taken.memory_given_back(memory);
            &&& taken.given_back(memory) == (LeaseLedger {
                admitted_total: taken.admitted_total,
                ..ledger
            })
            &&& half.leases == taken.leases && half.retained == ledger.retained
            &&& totals(half) == totals(taken) && same_bounds(half, ledger)
            &&& half.given_back(0) == taken.given_back(memory)
        }),
{
}

/// The bounds of all leases follow from those of one: as many as there are places, and as
/// much memory as that many can keep alive.
pub proof fn lemma_bounds_of_all_leases(capacity: usize, max_payload: usize, max_each: usize)
    ensures
        ({
            let ledger = LeaseLedger::fresh(capacity, max_payload, max_each);
            &&& ledger.max_leases == capacity && ledger.max_payload == max_payload
                && ledger.max_retained_each == max_each
            &&& capacity * max_each <= usize::MAX ==> ledger.max_retained == capacity * max_each
            &&& capacity * max_each > usize::MAX ==> ledger.max_retained == usize::MAX
            &&& ledger.leases == 0 && ledger.retained == 0
            &&& forall|i: int| 0 <= i < 7 ==> #[trigger] totals(ledger)[i] == 0
        }),
{
}

/// How far a write got follows from its outcome: bytes that were taken are told as they are,
/// all of them or a part; a write that showed its payload and got nothing off is known to
/// have sent nothing; any other one never showed it. Where nobody took the outcome of a write
/// that was accepted, its owner cannot know.
pub proof fn lemma_outcome_tells_how_far_it_got(verdict: LeaseVerdict)
    ensures
        ({
            let told = verdict.made();
            let shown = verdict is Blocked || verdict is ResetRequired || verdict is InvalidLength;
            &&& verdict matches LeaseVerdict::Accepted { accepted, complete, fin_accepted } ==> {
                &&& complete ==> told == (WebTransportStreamWriteLeaseProgress::AcceptedComplete {
                    accepted,
                    fin_accepted,
                })
                &&& !complete ==> told == (WebTransportStreamWriteLeaseProgress::AcceptedPartial {
                    accepted,
                })
                &&& verdict.made_unseen() == WebTransportStreamWriteLeaseProgress::Unknowable
            }
            &&& !(verdict is Accepted) ==> verdict.made_unseen() == told
            &&& told == WebTransportStreamWriteLeaseProgress::ExposedKnownZero <==> shown
            &&& told == WebTransportStreamWriteLeaseProgress::NeverExposed <==> !shown && !(
            verdict is Accepted)
        }),
{
}

/// A write that nobody waits for is counted by how far it got, and nothing else changes.
pub proof fn lemma_abandoned_write_is_counted(
    ledger: LeaseLedger,
    progress: WebTransportStreamWriteLeaseProgress,
)
    ensures
        ({
            let after = ledger.abandoned(progress);
            &&& counts_one(
                ledger,
                after,
                match progress {
                    WebTransportStreamWriteLeaseProgress::NeverExposed => 4,
                    WebTransportStreamWriteLeaseProgress::ExposedKnownZero => 5,
                    _ => 6,
                },
            )
            &&& after.leases == ledger.leases && after.retained == ledger.retained && same_bounds(
                ledger,
                after,
            )
        }),
{
}

/// Whether a request was put behind those that wait, under the next number.
pub open spec fn is_queued(
    before: DriverState,
    after: DriverState,
    request: WebTransportRequest,
) -> bool {
    &&& after.requests.items == before.requests.items.push(
        Queued { op: before.desk.next_op, request },
    )
    &&& one_more(before.desk.next_op, after.desk.next_op)
    &&& after.requests.capacity == before.requests.capacity && after.requests.open
        == before.requests.open
    &&& after.core == before.core && after.commands == before.commands
}

/// A request is put behind those that wait under a number of its own, while the lane is open
/// and has room. Otherwise nothing happens.
pub proof fn lemma_request_gets_the_next_number(
    state: DriverState,
    request: WebTransportRequest,
)
    ensures
        ({
            let after = state.requested(request);
            if state.requests.open && state.requests.items.len() < state.requests.capacity {
                is_queued(state, after, request) && after.desk == (DeskState {
                    next_op: after.desk.next_op,
                    ..state.desk
                })
            } else {
                after == state
            }
        }),
{
}

/// A write that is taken waits under the next number, and the memory of its bytes is kept
/// under that number. One that is not taken is not queued and keeps nothing.
pub proof fn lemma_offered_write_keeps_its_memory(
    state: DriverState,
    session_id: u64,
    stream_id: u64,
    data: Vec<u8>,
    fin: bool,
)
    requires
        state.desk.ledger.wf(),
    ensures
        ({
            let ledger = state.desk.ledger;
            let after = state.write_offered(session_id, stream_id, data, fin);
            let len = data@.len();
            let room = state.requests.items.len() < state.requests.capacity;
            let taken = len <= ledger.max_payload && len <= ledger.max_retained_each
                && state.requests.open && room && ledger.leases < ledger.max_leases
                && ledger.retained + len <= ledger.max_retained;
            if taken {
                &&& is_queued(
                    state,
                    after,
                    WebTransportRequest::Write { session_id, stream_id, data, fin },
                )
                &&& lookup(after.desk.writes, state.desk.next_op) matches Some(memory) && memory
                    == len
                &&& after.desk.ledger.leases == ledger.leases + 1
                &&& after.desk.ledger.retained == ledger.retained + len
            } else {
                &&& after.requests == state.requests && after.core == state.core
                &&& after.desk.writes == state.desk.writes && after.desk.next_op
                    == state.desk.next_op
                &&& after.desk.ledger.leases == ledger.leases && after.desk.ledger.retained
                    == ledger.retained
            }
        }),
{
    assert(data.len() == data@.len());
    lemma_lookup_after_put(
        state.desk.writes,
        state.desk.next_op,
        data@.len() as usize,
        state.desk.next_op,
    );
}

/// A lease is taken by what its owner says of its payload and its memory, and not by the
/// payload itself, which is not looked at.
pub proof fn lemma_offered_lease_keeps_its_memory(
    state: DriverState,
    session_id: u64,
    stream_id: u64,
    lease: MockWriteLease,
    fin: bool,
)
    requires
        state.desk.ledger.wf(),
    ensures
        ({
            let ledger = state.desk.ledger;
            let after = state.lease_offered(session_id, stream_id, lease, fin);
            let memory = lease.retained_bytes;
            let room = state.requests.items.len() < state.requests.capacity;
            let taken = lease.declared_len <= ledger.max_payload && memory
                <= ledger.max_retained_each && state.requests.open && room && ledger.leases
                < ledger.max_leases && ledger.retained + memory <= ledger.max_retained;
            if taken {
                &&& is_queued(
                    state,
                    after,
                    WebTransportRequest::WriteLease { session_id, stream_id, lease, fin },
                )
                &&& lookup(after.desk.writes, state.desk.next_op) == Some(memory)
                &&& after.desk.ledger.leases == ledger.leases + 1
                &&& after.desk.ledger.retained == ledger.retained + memory
            } else {
                &&& after.requests == state.requests && after.core == state.core
                &&& after.desk.writes == state.desk.writes && after.desk.next_op
                    == state.desk.next_op
                &&& after.desk.ledger.leases == ledger.leases && after.desk.ledger.retained
                    == ledger.retained
            }
        }),
{
    lemma_lookup_after_put(
        state.desk.writes,
        state.desk.next_op,
        lease.retained_bytes,
        state.desk.next_op,
    );
}

/// A lease that is not taken comes back with the reason.
pub proof fn lemma_refusal_tells_the_reason(admission: LeaseAdmission)
    ensures
        ({
            let told = refusal(admission);
            &&& admission matches LeaseAdmission::TooLarge { limit, max, actual } ==> told == (
            LeaseVerdict::TooLarge { limit, max, actual })
            &&& admission is QueueFull <==> told is QueueFull
            &&& admission is ResourceLimit <==> told is ResourceLimit
            &&& admission is ConnectionClosed ==> told == LeaseVerdict::Rejected(
                WebTransportSelectionError::ConnectionClosed,
            )
        }),
{
}

/// A datagram is not taken if it is longer than 1500 bytes, keeps more memory alive than the
/// settings allow, or the lane is closed or full, which is told in this order. The bytes
/// come back as they are.
pub proof fn lemma_datagram_is_refused_for_a_reason(
    state: DriverState,
    datagram: Seq<u8>,
    allocated: usize,
)
    ensures
        ({
            let max = state.core.settings.webtransport_max_datagram_send_allocation_bytes;
            let room = state.requests.items.len() < state.requests.capacity;
            let told = state.datagram_refused(datagram, allocated);
            &&& datagram.len() > 1500 ==> told == Some(
                DatagramSendAnswer::TooLarge { max: 1500, datagram },
            )
            &&& datagram.len() <= 1500 && allocated > max ==> told == Some(
                DatagramSendAnswer::AllocationTooLarge { max, allocated, datagram },
            )
            &&& datagram.len() <= 1500 && allocated <= max && !state.requests.open ==> told
                == Some(
                DatagramSendAnswer::Rejected {
                    error: WebTransportSelectionError::ConnectionClosed,
                    datagram,
                },
            )
            &&& datagram.len() <= 1500 && allocated <= max && state.requests.open && !room
                ==> told == Some(DatagramSendAnswer::QueueFull(datagram))
            &&& told is None <==> datagram.len() <= 1500 && allocated <= max
                && state.requests.open && room
        }),
{
}

/// Whether the lease under a number was given back in full.
pub open spec fn is_given_back(before: DeskState, after: DeskState, op: u64) -> bool {
    match lookup(before.writes, op) {
        Some(memory) => {
            &&& lookup(after.writes, op) is None
            &&& lookup(after.retries, op) is None
            &&& before.ledger.leases > 0 ==> after.ledger.leases == before.ledger.leases - 1
            &&& memory <= before.ledger.retained ==> after.ledger.retained
                == before.ledger.retained - memory
        },
        None => after.ledger.leases == before.ledger.leases && after.ledger.retained
            == before.ledger.retained,
    }
}

/// The first answer to a request, if there is one.
proof fn lemma_answer_stands(answers: Seq<(u64, Answer)>, op: u64)
    ensures
        0 <= answer_position(answers, op) <= answers.len(),
        answer_position(answers, op) < answers.len() ==> answers[answer_position(
            answers,
            op,
        )].0 == op,
        forall|k: int| 0 <= k < answer_position(answers, op) ==> (#[trigger] answers[k]).0 != op,
    decreases answers.len(),
{
    if answers.len() > 0 {
        let front = answers.drop_last();
        lemma_answer_stands(front, op);
        let at = answer_position(front, op);
        assert forall|k: int| 0 <= k < at implies (#[trigger] answers[k]).0 != op by {
            assert(front[k] == answers[k]);
        }
        if at < front.len() {
            assert(front[at] == answers[at]);
            lemma_answer_position(answers, op, at);
        } else if answers.last().0 == op {
            lemma_answer_position(answers, op, front.len() as int);
        } else {
            lemma_answer_position(answers, op, answers.len() as int);
        }
    }
}

/// An answer is taken once: the first that waits under its number goes, and the others stay
/// as they are. With it a lease is back in full; only after a blocked write its place is
/// kept, and with it the right to try again.
pub proof fn lemma_taken_answer_gives_the_lease_back(state: DriverState, op: u64)
    requires
        distinct(state.desk.writes),
        distinct(state.desk.retries),
    ensures
        ({
            let after = state.answer_taken(op);
            let answer = answer_to(state.desk.answers, op);
            let answers = state.desk.answers;
            &&& answer is None ==> after == state && (forall|k: int|
                0 <= k < answers.len() ==> (#[trigger] answers[k]).0 != op)
            &&& answer is Some ==> {
                &&& exists|at: int|
                    0 <= at < answers.len() && #[trigger] answers[at] == (op, answer->Some_0) && (
                    forall|k: int| 0 <= k < at ==> (#[trigger] answers[k]).0 != op)
                        && after.desk.answers == answers.remove(at)
                &&& if answer->Some_0 matches Answer::Lease(lease) && lease.verdict is Blocked {
                    &&& after.desk.ledger.leases == state.desk.ledger.leases
                    &&& after.desk.retries == state.desk.retries
                    &&& lookup(state.desk.writes, op) matches Some(memory) ==> lookup(
                        after.desk.writes,
                        op,
                    ) == Some(0usize) && (memory <= state.desk.ledger.retained
                        ==> after.desk.ledger.retained == state.desk.ledger.retained - memory)
                } else {
                    is_given_back(state.desk, after.desk, op)
                }
                &&& after.core == state.core && after.requests == state.requests
                    && after.desk.dropped == state.desk.dropped
            }
        }),
{
    let answers = state.desk.answers;
    lemma_answer_stands(answers, op);
    let at = answer_position(answers, op);
    lemma_lookup_after_without(state.desk.writes, op, op);
    lemma_lookup_after_without(state.desk.retries, op, op);
    lemma_lookup_after_put(state.desk.writes, op, 0usize, op);
    if at < answers.len() {
        assert(answers[at] == (op, answers[at].1));
    }
}

/// A request that nobody waits for is over at once if it was answered: the answer goes, and
/// a lease goes back to its owner, who is told how far it got as far as it can be known.
/// One that was not answered is remembered, and nothing else happens.
pub proof fn lemma_cancelled_request_is_let_go(state: DriverState, op: u64)
    requires
        distinct(state.desk.writes),
        distinct(state.desk.retries),
    ensures
        ({
            let after = state.cancelled(op);
            let answer = answer_to(state.desk.answers, op);
            &&& answer is None ==> after == (DriverState {
                desk: DeskState {
                    cancelled: state.desk.cancelled.push(op),
                    ..state.desk
                },
                ..state
            })
            &&& answer matches Some(Answer::Lease(lease)) ==> {
                &&& after.desk.dropped == state.desk.dropped.push(
                    LeaseState {
                        abandonments: lease.lease.abandonments.push(
                            if lease.verdict is Accepted {
                                WebTransportStreamWriteLeaseProgress::Unknowable
                            } else {
                                lease.verdict.made()
                            },
                        ),
                        ..lease.lease
                    },
                )
                &&& is_given_back(state.desk, after.desk, op)
                &&& after.desk.cancelled == state.desk.cancelled
            }
            &&& answer is Some && !(answer->Some_0 is Lease) ==> after.desk.dropped
                == state.desk.dropped && is_given_back(state.desk, after.desk, op)
            &&& answer is Some ==> exists|at: int|
                0 <= at < state.desk.answers.len() && #[trigger] state.desk.answers[at] == (
                    op,
                    answer->Some_0,
                ) && after.desk.answers == state.desk.answers.remove(at)
            &&& after.core == state.core && after.requests == state.requests
        }),
{
    let answers = state.desk.answers;
    lemma_answer_stands(answers, op);
    let at = answer_position(answers, op);
    lemma_lookup_after_without(state.desk.writes, op, op);
    lemma_lookup_after_without(state.desk.retries, op, op);
    if at < answers.len() {
        assert(answers[at] == (op, answers[at].1));
    }
}

/// The right to try a blocked write again is good where it was given and while it was not
/// used. Giving it up gives the place back.
pub proof fn lemma_retry_right_is_good_once(
    state: DeskState,
    retry: WebTransportStreamWriteRetry,
    again: WebTransportStreamWriteRetry,
)
    requires
        distinct(state.writes),
        distinct(state.retries),
    ensures
        retry.driver != state.identity ==> state.retry_target(retry) is None
            && state.retry_dropped(retry) == state,
        retry.driver == state.identity ==> state.retry_target(retry) == lookup(
            state.retries,
            retry.op,
        ) && is_given_back(state, state.retry_dropped(retry), retry.op),
        again == retry && lookup(state.writes, retry.op) is Some ==> state.retry_dropped(
            retry,
        ).retry_target(again) is None,
{
    lemma_lookup_after_without(state.writes, retry.op, retry.op);
    lemma_lookup_after_without(state.retries, retry.op, retry.op);
}

/// A request for a sample is put behind the requests that wait, if none is under way and there
/// is room. Otherwise nothing is queued.
pub proof fn lemma_request_for_a_sample_is_queued(state: DriverState)
    ensures
        ({
            let after = state.snapshot_requested();
            let slot = state.desk.snapshot;
            let room = state.requests.open && state.requests.items.len()
                < state.requests.capacity;
            let free = slot.ended is None && slot.stage is None && room;
            &&& free ==> is_queued(state, after, WebTransportRequest::LiveSnapshot)
                && after.desk.snapshot.stage == Some(SnapshotStage::Waiting)
            &&& !free ==> after.requests == state.requests && after.desk.snapshot.stage
                == slot.stage && after.desk.next_op == state.desk.next_op
        }),
{
}

/// The owner of a lease that the driver never had is told that it was never shown, and that is
/// counted. What is out stays out.
pub proof fn lemma_unsent_lease_was_never_shown(state: DeskState, lease: LeaseState)
    ensures
        ({
            let after = state.unsent_lease_abandoned(lease);
            &&& after.dropped == state.dropped.push(
                LeaseState {
                    abandonments: lease.abandonments.push(
                        WebTransportStreamWriteLeaseProgress::NeverExposed,
                    ),
                    ..lease
                },
            )
            &&& counts_one(state.ledger, after.ledger, 4)
            &&& after.ledger.leases == state.ledger.leases && after.ledger.retained
                == state.ledger.retained
            &&& after.writes == state.writes && after.answers == state.answers
        }),
{
}

} // verus!
