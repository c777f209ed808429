//! How much is remembered of the ends of streams, and how many requests wait.

use vstd::prelude::*;

use crate::driver::lease_laws::one_more;
use crate::driver::stats_laws::{is_refused, lemma_ends_are_counted};
use crate::driver::turn_laws::{lemma_others_wait, waits_for_another};
use crate::table::{lemma_lookup_after_put, lookup};
use crate::wt::stream_ends::{EndingsState, StreamEnds};
use crate::wt::waiters::{WaitState, Waiter};

verus! {

/// A refusal of the peer is remembered with its code while fewer than so many are, and is
/// counted as lost otherwise. Whoever waited for it waits no more. A stream of which the
/// application wants to hear no more, or which was refused before, stays as it is.
pub proof fn lemma_refusal_is_remembered_while_there_is_room(
    state: EndingsState,
    stream_id: u64,
    error_code: u64,
    other: u64,
)
    ensures
        ({
            let after = state.peer_stopped(stream_id, error_code);
            let known = lookup(state.rows, stream_id);
            let ends = known->Some_0;
            let settled = known is Some && (ends.send_retired || ends.stopped is Some
                || ends.stop_lost);
            let now = lookup(after.rows, stream_id);
            &&& settled ==> after == state
            &&& !settled ==> {
                &&& now is Some
                &&& after.waiters.list == state.waiters.list.filter(
                    waits_for_another(stream_id),
                )
                &&& known is Some ==> now->Some_0.received == ends.received
                    && now->Some_0.send_closed == ends.send_closed && now->Some_0.stop_sent
                    == ends.stop_sent
                &&& other != stream_id ==> lookup(after.rows, other) == lookup(
                    state.rows,
                    other,
                )
                &&& if state.rows.filter(is_refused()).len() < state.max_states {
                    now->Some_0.stopped == Some(error_code) && !now->Some_0.stop_lost
                        && after.state_saturation_total == state.state_saturation_total
                } else {
                    now->Some_0.stopped is None && now->Some_0.stop_lost && one_more(
                        state.state_saturation_total,
                        after.state_saturation_total,
                    )
                }
            }
        }),
{
    let ends = state.ends(stream_id);
    lemma_ends_are_counted(state.rows);
    lemma_others_wait(state.waiters.list, stream_id);
    let kept = StreamEnds { stopped: Some(error_code), ..ends };
    let lost = StreamEnds { stop_lost: true, ..ends };
    lemma_lookup_after_put(state.rows, stream_id, kept, stream_id);
    lemma_lookup_after_put(state.rows, stream_id, kept, other);
    lemma_lookup_after_put(state.rows, stream_id, lost, stream_id);
    lemma_lookup_after_put(state.rows, stream_id, lost, other);
}

/// A request waits behind the others while fewer than so many do, and is counted otherwise.
pub proof fn lemma_request_waits_while_there_is_room(state: WaitState, op: u64, key: u64)
    ensures
        ({
            let after = state.registered(op, key);
            &&& state.list.len() < state.bound ==> after.list == state.list.push(
                Waiter { op, key },
            ) && after.saturation_total == state.saturation_total
            &&& state.list.len() >= state.bound ==> after.list == state.list && one_more(
                state.saturation_total,
                after.saturation_total,
            )
            &&& after.bound == state.bound
        }),
{
}

/// What the application says and does about one direction of a stream is remembered, and
/// changes nothing that is known of the other direction or of another stream.
pub proof fn lemma_directions_are_remembered_apart(
    state: EndingsState,
    stream_id: u64,
    other: u64,
)
    requires
        other != stream_id,
        lookup(state.rows, stream_id) is Some,
    ensures
        ({
            let ends = lookup(state.rows, stream_id)->Some_0;
            let closed = state.send_closed(stream_id);
            let retired = state.send_retired(stream_id);
            let stopped = state.receive_stopped(stream_id);
            let observed = state.receive_observed(stream_id);
            let quit = state.receive_retired(stream_id);
            &&& lookup(closed.rows, stream_id) == Some(StreamEnds { send_closed: true, ..ends })
            &&& lookup(retired.rows, stream_id) matches Some(now) && now.send_retired
                && now.stopped is None && !now.stop_lost && now.send_closed == ends.send_closed
                && now.received == ends.received && now.stop_sent == ends.stop_sent
                && now.receive_retired == ends.receive_retired && now.observed == ends.observed
            &&& lookup(stopped.rows, stream_id) == Some(StreamEnds { stop_sent: true, ..ends })
            &&& lookup(observed.rows, stream_id) == Some(StreamEnds { observed: true, ..ends })
            &&& lookup(quit.rows, stream_id) == Some(StreamEnds { receive_retired: true, ..ends })
            &&& lookup(closed.rows, other) == lookup(state.rows, other)
            &&& lookup(retired.rows, other) == lookup(state.rows, other)
            &&& lookup(stopped.rows, other) == lookup(state.rows, other)
            &&& lookup(observed.rows, other) == lookup(state.rows, other)
            &&& lookup(quit.rows, other) == lookup(state.rows, other)
            &&& stopped.waiters == state.waiters && observed.waiters == state.waiters
                && quit.waiters == state.waiters
        }),
{
    let ends = state.ends(stream_id);
    let closed = StreamEnds { send_closed: true, ..ends };
    let retired = StreamEnds { send_retired: true, stopped: None, stop_lost: false, ..ends };
    let stopped = StreamEnds { stop_sent: true, ..ends };
    let observed = StreamEnds { observed: true, ..ends };
    let quit = StreamEnds { receive_retired: true, ..ends };
    lemma_lookup_after_put(state.rows, stream_id, closed, stream_id);
    lemma_lookup_after_put(state.rows, stream_id, closed, other);
    lemma_lookup_after_put(state.rows, stream_id, retired, stream_id);
    lemma_lookup_after_put(state.rows, stream_id, retired, other);
    lemma_lookup_after_put(state.rows, stream_id, stopped, stream_id);
    lemma_lookup_after_put(state.rows, stream_id, stopped, other);
    lemma_lookup_after_put(state.rows, stream_id, observed, stream_id);
    lemma_lookup_after_put(state.rows, stream_id, observed, other);
    lemma_lookup_after_put(state.rows, stream_id, quit, stream_id);
    lemma_lookup_after_put(state.rows, stream_id, quit, other);
}

} // verus!
