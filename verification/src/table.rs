//! An insertion-ordered table keyed by stream identifier.

use vstd::prelude::*;

verus! {

/// Where `id` stands in `rows`, or the number of rows where it does not.
pub open spec fn position<V>(rows: Seq<(u64, V)>, id: u64) -> int
    decreases rows.len(),
{
    if rows.len() == 0 {
        0
    } else if rows[0].0 == id {
        0
    } else {
        1 + position(rows.skip(1), id)
    }
}

/// The row of `id`.
pub open spec fn lookup<V>(rows: Seq<(u64, V)>, id: u64) -> Option<V> {
    if position(rows, id) < rows.len() {
        Some(rows[position(rows, id)].1)
    } else {
        None
    }
}

/// `rows` with `value` as the row of `id`, in its old place or at the end.
pub open spec fn put<V>(rows: Seq<(u64, V)>, id: u64, value: V) -> Seq<(u64, V)> {
    if position(rows, id) < rows.len() {
        rows.update(position(rows, id), (id, value))
    } else {
        rows.push((id, value))
    }
}

/// `rows` without the row of `id`.
pub open spec fn without<V>(rows: Seq<(u64, V)>, id: u64) -> Seq<(u64, V)> {
    if position(rows, id) < rows.len() {
        rows.remove(position(rows, id))
    } else {
        rows
    }
}

/// No identifier has two rows.
pub open spec fn distinct<V>(rows: Seq<(u64, V)>) -> bool {
    forall|i: int, j: int| 0 <= i < j < rows.len() ==> rows[i].0 != rows[j].0
}

/// A position is the first index at which the identifier stands.
pub proof fn lemma_position<V>(rows: Seq<(u64, V)>, id: u64)
    ensures
        0 <= position(rows, id) <= rows.len(),
        position(rows, id) < rows.len() ==> rows[position(rows, id)].0 == id,
        forall|i: int| 0 <= i < position(rows, id) ==> rows[i].0 != id,
    decreases rows.len(),
{
    if rows.len() > 0 && rows[0].0 != id {
        let rest = rows.skip(1);
        lemma_position(rest, id);
        assert forall|i: int| 0 <= i < position(rows, id) implies rows[i].0 != id by {
            if i > 0 {
                assert(rows[i] == rest[i - 1]);
            }
        }
    }
}

/// The first index at which an identifier stands is its position.
pub proof fn lemma_position_is<V>(rows: Seq<(u64, V)>, id: u64, at: int)
    requires
        0 <= at <= rows.len(),
        at < rows.len() ==> rows[at].0 == id,
        forall|i: int| 0 <= i < at ==> rows[i].0 != id,
    ensures
        position(rows, id) == at,
{
    lemma_position(rows, id);
    let found = position(rows, id);
    if found < at {
        assert(rows[found].0 != id);
    } else if at < found {
        assert(rows[at].0 != id);
    }
}

/// Writing a row changes what is read under its identifier and nothing else.
pub proof fn lemma_lookup_after_put<V>(rows: Seq<(u64, V)>, id: u64, value: V, other: u64)
    ensures
        lookup(put(rows, id, value), id) == Some(value),
        other != id ==> lookup(put(rows, id, value), other) == lookup(rows, other),
{
    lemma_position(rows, id);
    lemma_position(rows, other);
    let new = put(rows, id, value);
    let at = position(rows, id);
    assert forall|i: int| 0 <= i < at implies new[i].0 != id by {
        assert(new[i] == rows[i]);
    }
    lemma_position_is(new, id, at);
    if other != id {
        let from = position(rows, other);
        if from < rows.len() {
            assert forall|i: int| 0 <= i < from implies new[i].0 != other by {
                assert(rows[i].0 != other);
            }
            assert(new[from] == rows[from]);
            lemma_position_is(new, other, from);
        } else {
            assert forall|i: int| 0 <= i < new.len() implies new[i].0 != other by {
                if i < rows.len() {
                    assert(rows[i].0 != other);
                }
            }
            lemma_position_is(new, other, new.len() as int);
        }
    }
}

/// A row is found by the first place of its identifier, written in that place, and removed
/// from it; where there is none it is written behind the others, and nothing is found or
/// removed. No other row changes or moves past another.
pub proof fn lemma_rows_keep_their_places<V>(rows: Seq<(u64, V)>, id: u64, value: V, at: int)
    requires
        0 <= at <= rows.len(),
        at < rows.len() ==> rows[at].0 == id,
        forall|i: int| 0 <= i < at ==> rows[i].0 != id,
    ensures
        at < rows.len() ==> {
            &&& lookup(rows, id) == Some(rows[at].1)
            &&& put(rows, id, value) == rows.update(at, (id, value))
            &&& without(rows, id) == rows.remove(at)
        },
        at == rows.len() ==> {
            &&& lookup(rows, id) is None
            &&& put(rows, id, value) == rows.push((id, value))
            &&& without(rows, id) == rows
        },
{
    lemma_position_is(rows, id, at);
}

/// Removing a row from a table without duplicates removes its identifier and
/// changes nothing else.
pub proof fn lemma_lookup_after_without<V>(rows: Seq<(u64, V)>, id: u64, other: u64)
    requires
        distinct(rows),
    ensures
        lookup(without(rows, id), id) is None,
        other != id ==> lookup(without(rows, id), other) == lookup(rows, other),
{
    lemma_position(rows, id);
    lemma_position(rows, other);
    let new = without(rows, id);
    let at = position(rows, id);
    assert forall|i: int| 0 <= i < new.len() implies new[i].0 != id by {
        if i < at {
            assert(new[i] == rows[i]);
        } else {
            assert(new[i] == rows[i + 1]);
        }
    }
    lemma_position_is(new, id, new.len() as int);
    if other != id {
        let from = position(rows, other);
        if from < rows.len() {
            let to = if from < at {
                from
            } else {
                from - 1
            };
            assert forall|i: int| 0 <= i < to implies new[i].0 != other by {
                if i < at {
                    assert(new[i] == rows[i]);
                } else {
                    assert(new[i] == rows[i + 1]);
                }
            }
            if at < rows.len() {
                lemma_position_is(new, other, to);
            }
        } else {
            assert forall|i: int| 0 <= i < new.len() implies new[i].0 != other by {
                if i < at {
                    assert(new[i] == rows[i]);
                } else {
                    assert(new[i] == rows[i + 1]);
                }
            }
            lemma_position_is(new, other, new.len() as int);
        }
    }
}

/// Writing and removing rows never creates a duplicate.
pub proof fn lemma_distinct_is_kept<V>(rows: Seq<(u64, V)>, id: u64, value: V)
    requires
        distinct(rows),
    ensures
        distinct(put(rows, id, value)),
        distinct(without(rows, id)),
{
    lemma_position(rows, id);
}

/// A table of `V` keyed by stream identifier, in insertion order.
#[derive(Debug)]
pub struct Table<V> {
    rows: Vec<(u64, V)>,
}

impl<V> View for Table<V> {
    type V = Seq<(u64, V)>;

    closed spec fn view(&self) -> Seq<(u64, V)> {
        self.rows@
    }
}

impl<V> Table<V> {
    /// A table without rows.
    pub fn new() -> (table: Self)
        ensures
            table@ == Seq::<(u64, V)>::empty(),
    {
        Table { rows: Vec::new() }
    }

    /// A table with the given rows.
    pub fn from_rows(rows: Vec<(u64, V)>) -> (table: Self)
        ensures
            table@ == rows@,
    {
        Table { rows }
    }

    /// The number of rows.
    pub fn len(&self) -> (count: usize)
        ensures
            count == self@.len(),
    {
        self.rows.len()
    }

    fn find(&self, id: u64) -> (at: usize)
        ensures
            at == position(self@, id),
            at <= self@.len(),
            at < self@.len() ==> self@[at as int].0 == id,
    {
        let mut i: usize = 0;
        while i < self.rows.len()
            invariant
                i <= self.rows@.len(),
                forall|k: int| 0 <= k < i ==> self.rows@[k].0 != id,
            decreases self.rows@.len() - i,
        {
            if self.rows[i].0 == id {
                proof {
                    lemma_position_is(self@, id, i as int);
                }
                return i;
            }
            i += 1;
        }
        proof {
            lemma_position_is(self@, id, i as int);
        }
        i
    }

    /// Whether `id` has a row.
    pub fn contains(&self, id: u64) -> (found: bool)
        ensures
            found == (lookup(self@, id) is Some),
    {
        self.find(id) < self.rows.len()
    }

    /// The row of `id`.
    pub fn get(&self, id: u64) -> (row: Option<&V>)
        ensures
            match lookup(self@, id) {
                Some(value) => row == Some(&value),
                None => row is None,
            },
    {
        let at: usize = self.find(id);
        if at < self.rows.len() {
            Some(&self.rows[at].1)
        } else {
            None
        }
    }

    /// The row of `id`, for changing it in place.
    pub fn get_mut(&mut self, id: u64) -> (row: Option<&mut V>)
        ensures
            match row {
                Some(r) => lookup(old(self)@, id) == Some(*r) && final(self)@ == put(
                    old(self)@,
                    id,
                    *final(r),
                ),
                None => lookup(old(self)@, id) is None && final(self)@ == old(self)@,
            },
    {
        let at: usize = self.find(id);
        if at < self.rows.len() {
            Some(&mut self.rows[at].1)
        } else {
            None
        }
    }

    /// The identifier and the row at `index`.
    pub fn at(&self, index: usize) -> (row: (u64, &V))
        requires
            index < self@.len(),
        ensures
            row == (self@[index as int].0, &self@[index as int].1),
    {
        (self.rows[index].0, &self.rows[index].1)
    }

    /// Writes the row of `id`.
    pub fn set(&mut self, id: u64, value: V)
        ensures
            final(self)@ == put(old(self)@, id, value),
    {
        let at: usize = self.find(id);
        if at < self.rows.len() {
            self.rows.set(at, (id, value));
        } else {
            self.rows.push((id, value));
        }
    }

    /// Writes the row at `index` and keeps its identifier.
    pub fn set_at(&mut self, index: usize, value: V)
        requires
            index < old(self)@.len(),
        ensures
            final(self)@ == old(self)@.update(index as int, (old(self)@[index as int].0, value)),
    {
        let id: u64 = self.rows[index].0;
        self.rows.set(index, (id, value));
    }

    /// Removes the row of `id` and hands it over.
    pub fn remove(&mut self, id: u64) -> (row: Option<V>)
        ensures
            row == lookup(old(self)@, id),
            final(self)@ == without(old(self)@, id),
    {
        let at: usize = self.find(id);
        if at < self.rows.len() {
            let (_, value) = self.rows.remove(at);
            Some(value)
        } else {
            None
        }
    }

    /// Removes every row and hands them over.
    pub fn take_rows(&mut self) -> (rows: Vec<(u64, V)>)
        ensures
            rows@ == old(self)@,
            final(self)@ == Seq::<(u64, V)>::empty(),
    {
        let mut rows: Vec<(u64, V)> = Vec::new();
        std::mem::swap(&mut rows, &mut self.rows);
        rows
    }

    /// Removes every row.
    pub fn clear(&mut self)
        ensures
            final(self)@ == Seq::<(u64, V)>::empty(),
    {
        self.rows.clear();
    }
}

} // verus!
