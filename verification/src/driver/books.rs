//! The ledger of leases agrees with the leases that are out.

use vstd::prelude::*;

use crate::conn_close::bumped;
use crate::table::{lemma_position, lookup, position, put, without};
use crate::wt::write_lease::LeaseLedger;

verus! {

/// How much memory the leases of a table keep alive together.
pub open spec fn memory_total(rows: Seq<(u64, usize)>) -> nat
    decreases rows.len(),
{
    if rows.len() == 0 {
        0
    } else {
        memory_total(rows.drop_last()) + rows.last().1 as nat
    }
}

/// Whether a ledger counts just the leases of a table: their number, their memory,
/// and no lease that is still to come. Nothing is claimed once the numbers of
/// requests have run out.
#[verifier::opaque]
pub open spec fn books_agree(
    leases: usize,
    retained: usize,
    rows: Seq<(u64, usize)>,
    next_op: u64,
) -> bool {
    next_op < u64::MAX ==> {
        &&& leases == rows.len()
        &&& retained == memory_total(rows)
        &&& forall|i: int| 0 <= i < rows.len() ==> (#[trigger] rows[i]).0 < next_op
    }
}

proof fn lemma_memory_of_changed_row(rows: Seq<(u64, usize)>, at: int, row: (u64, usize))
    requires
        0 <= at < rows.len(),
    ensures
        memory_total(rows.update(at, row)) == memory_total(rows) - rows[at].1 + row.1,
        memory_total(rows.remove(at)) == memory_total(rows) - rows[at].1,
        rows[at].1 <= memory_total(rows),
    decreases rows.len(),
{
    let front = rows.drop_last();
    if at == rows.len() - 1 {
        assert(rows.update(at, row).drop_last() =~= front);
        assert(rows.remove(at) =~= front);
    } else {
        lemma_memory_of_changed_row(front, at, row);
        assert(rows.update(at, row).drop_last() =~= front.update(at, row));
        assert(rows.remove(at).drop_last() =~= front.remove(at));
        assert(rows.remove(at).last() == rows.last());
    }
}

/// The books agree at the start.
pub proof fn lemma_books_begin(next_op: u64)
    ensures
        books_agree(0, 0, Seq::empty(), next_op),
{
    reveal(books_agree);
}

/// The books agree after a request that is no lease was numbered.
pub proof fn lemma_books_numbered(ledger: LeaseLedger, rows: Seq<(u64, usize)>, next_op: u64)
    requires
        books_agree(ledger.leases, ledger.retained, rows, next_op),
    ensures
        books_agree(ledger.leases, ledger.retained, rows, bumped(next_op)),
{
    reveal(books_agree);
}

/// The books agree after a lease was entered under the next number.
pub proof fn lemma_books_entered(
    ledger: LeaseLedger,
    rows: Seq<(u64, usize)>,
    next_op: u64,
    memory: usize,
)
    requires
        books_agree(ledger.leases, ledger.retained, rows, next_op),
        ledger.leases + 1 <= usize::MAX,
        ledger.retained + memory <= usize::MAX,
    ensures
        books_agree(
            (ledger.leases + 1) as usize,
            (ledger.retained + memory) as usize,
            put(rows, next_op, memory),
            bumped(next_op),
        ),
{
    reveal(books_agree);
    lemma_position(rows, next_op);
    if next_op < u64::MAX {
        let at = position(rows, next_op);
        if at < rows.len() {
            assert(rows[at].0 < next_op);
        }
        let all = rows.push((next_op, memory));
        assert(put(rows, next_op, memory) == all);
        assert(all.drop_last() =~= rows);
        assert forall|i: int| 0 <= i < all.len() implies (#[trigger] all[i]).0 < bumped(next_op)
            || bumped(next_op) == u64::MAX by {
            if i < rows.len() {
                assert(all[i] == rows[i]);
            }
        }
    }
}

/// The books agree after a lease came back to its owner.
pub proof fn lemma_books_returned(
    ledger: LeaseLedger,
    rows: Seq<(u64, usize)>,
    next_op: u64,
    op: u64,
)
    requires
        books_agree(ledger.leases, ledger.retained, rows, next_op),
    ensures
        lookup(rows, op) matches Some(memory) ==> books_agree(
            ledger.given_back(memory).leases,
            ledger.given_back(memory).retained,
            without(rows, op),
            next_op,
        ),
{
    reveal(books_agree);
    lemma_position(rows, op);
    let at = position(rows, op);
    if at < rows.len() && next_op < u64::MAX {
        lemma_memory_of_changed_row(rows, at, rows[at]);
        let rest = rows.remove(at);
        assert forall|i: int| 0 <= i < rest.len() implies (#[trigger] rest[i]).0 < next_op by {
            if i < at {
                assert(rest[i] == rows[i]);
            } else {
                assert(rest[i] == rows[i + 1]);
            }
        }
    }
}

/// The books agree after the memory of a lease came back to its owner.
pub proof fn lemma_books_kept(ledger: LeaseLedger, rows: Seq<(u64, usize)>, next_op: u64, op: u64)
    requires
        books_agree(ledger.leases, ledger.retained, rows, next_op),
    ensures
        lookup(rows, op) matches Some(memory) ==> books_agree(
            ledger.memory_given_back(memory).leases,
            ledger.memory_given_back(memory).retained,
            put(rows, op, 0),
            next_op,
        ),
{
    reveal(books_agree);
    lemma_position(rows, op);
    let at = position(rows, op);
    if at < rows.len() && next_op < u64::MAX {
        lemma_memory_of_changed_row(rows, at, (op, 0));
        let all = rows.update(at, (op, 0usize));
        assert forall|i: int| 0 <= i < all.len() implies (#[trigger] all[i]).0 < next_op by {
            assert(rows[i].0 < next_op);
            assert(rows[at].0 == op);
        }
    }
}

/// While numbers last, the ledger of a driver says exactly what is out: as many
/// leases as the table has rows, and as much memory as they keep alive together.
pub proof fn lemma_ledger_is_exact(ledger: LeaseLedger, rows: Seq<(u64, usize)>, next_op: u64)
    requires
        books_agree(ledger.leases, ledger.retained, rows, next_op),
        next_op < u64::MAX,
    ensures
        ledger.leases == rows.len(),
        ledger.retained == memory_total(rows),
        ledger.leases == 0 ==> ledger.retained == 0,
{
    reveal(books_agree);
}

} // verus!
