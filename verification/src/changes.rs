//! What has to be written back after the tables were worked on: which rows
//! left a table, and which are new or differ.

use vstd::prelude::*;
use crate::db_auth::{User, UserView};
use crate::db_main::{Event, EventView, Ticket};

verus! {

/// A row that is stored under an id.
pub trait Stored: View + Sized {
    /// The id under which a row of this value is stored.
    spec fn key_of(value: Self::V) -> i64;

    /// The id under which the row is stored.
    fn key(&self) -> (id: i64)
        ensures
            id == Self::key_of(self@),
    ;

    /// Whether the two rows hold the same.
    fn same(&self, other: &Self) -> (same: bool)
        ensures
            same == (self@ == other@),
    ;

    /// A copy of the row.
    fn duplicate(&self) -> (copy: Self)
        ensures
            copy@ == self@,
    ;
}

impl Stored for User {
    open spec fn key_of(value: UserView) -> i64 {
        value.id
    }

    fn key(&self) -> (id: i64) {
        self.id
    }

    fn same(&self, other: &Self) -> (same: bool) {
        self.id == other.id && self.student_id == other.student_id && self.username == other.username
            && self.full_name == other.full_name && self.pass_hash == other.pass_hash && self.lifetime
            == other.lifetime && self.score == other.score && self.data == other.data
    }

    fn duplicate(&self) -> (copy: Self) {
        self.clone()
    }
}

impl Stored for Event {
    open spec fn key_of(value: EventView) -> i64 {
        value.id
    }

    fn key(&self) -> (id: i64) {
        self.id
    }

    fn same(&self, other: &Self) -> (same: bool) {
        self.id == other.id && self.start_time == other.start_time && self.end_time == other.end_time
            && self.title == other.title && self.human_location == other.human_location && self.latitude
            == other.latitude && self.longitude == other.longitude && self.details == other.details
            && self.image == other.image && self.point_reward == other.point_reward && self.sale_deadline
            == other.sale_deadline
    }

    fn duplicate(&self) -> (copy: Self) {
        self.clone()
    }
}

impl Stored for Ticket {
    open spec fn key_of(value: Ticket) -> i64 {
        value.id
    }

    fn key(&self) -> (id: i64) {
        self.id
    }

    fn same(&self, other: &Self) -> (same: bool) {
        *self == *other
    }

    fn duplicate(&self) -> (copy: Self) {
        *self
    }
}

/// The values of a sequence of rows.
pub open spec fn values<R: Stored>(rows: Seq<R>) -> Seq<R::V> {
    rows.map_values(|row: R| row@)
}

/// The ids of a sequence of rows.
pub open spec fn keys<R: Stored>(rows: Seq<R>) -> Seq<i64> {
    rows.map_values(|row: R| R::key_of(row@))
}

/// The ids of `before` that are no id of `after`, in the order of `before`:
/// the ids of the rows that left.
pub open spec fn keys_left(before: Seq<i64>, after: Seq<i64>) -> Seq<i64> {
    before.filter(|id: i64| !after.contains(id))
}

/// The rows of `after` that are no row of `before`, in the order of `after`:
/// the rows that are new or differ.
pub open spec fn rows_written<V>(before: Seq<V>, after: Seq<V>) -> Seq<V> {
    after.filter(|row: V| !before.contains(row))
}

/// The ids that left, from a table that had one row more.
proof fn lemma_keys_left_push(before: Seq<i64>, id: i64, after: Seq<i64>)
    ensures
        keys_left(before.push(id), after) == if after.contains(id) {
            keys_left(before, after)
        } else {
            keys_left(before, after).push(id)
        },
{
    before.lemma_filter_push(id, |id: i64| !after.contains(id));
}

/// The rows to write, for a table that has one row more.
proof fn lemma_rows_written_push<V>(before: Seq<V>, after: Seq<V>, row: V)
    ensures
        rows_written(before, after.push(row)) == if before.contains(row) {
            rows_written(before, after)
        } else {
            rows_written(before, after).push(row)
        },
{
    after.lemma_filter_push(row, |row: V| !before.contains(row));
}

/// Whether a row of `rows` is stored under `id`.
fn has_key<R: Stored>(rows: &Vec<R>, id: i64) -> (found: bool)
    ensures
        found == keys(rows@).contains(id),
{
    let mut k: usize = 0;
    while k < rows.len()
        invariant
            k <= rows.len(),
            forall|i: int| 0 <= i < k ==> keys(rows@)[i] != id,
        decreases rows.len() - k,
    {
        if rows[k].key() == id {
            assert(keys(rows@)[k as int] == id);
            return true;
        }
        k += 1;
    }
    false
}

/// Whether `row` is one of `rows`.
fn has_row<R: Stored>(rows: &Vec<R>, row: &R) -> (found: bool)
    ensures
        found == values(rows@).contains(row@),
{
    let mut k: usize = 0;
    while k < rows.len()
        invariant
            k <= rows.len(),
            forall|i: int| 0 <= i < k ==> values(rows@)[i] != row@,
        decreases rows.len() - k,
    {
        if rows[k].same(row) {
            assert(values(rows@)[k as int] == row@);
            return true;
        }
        k += 1;
    }
    false
}

/// What has to be written back for a table that held `before` and now holds
/// `after`: the ids of the rows to delete, and the rows to write.
pub fn changed_rows<R: Stored>(before: &Vec<R>, after: &Vec<R>) -> (out: (Vec<i64>, Vec<R>))
    ensures
        out.0@ == keys_left(keys(before@), keys(after@)),
        values(out.1@) == rows_written(values(before@), values(after@)),
{
    let mut left: Vec<i64> = Vec::new();
    let mut k: usize = 0;
    proof {
        reveal(Seq::filter);
        assert(keys(before@).take(0) =~= Seq::<i64>::empty());
    }
    while k < before.len()
        invariant
            k <= before.len(),
            left@ == keys_left(keys(before@).take(k as int), keys(after@)),
        decreases before.len() - k,
    {
        let id = before[k].key();
        proof {
            assert(keys(before@).take(k + 1) =~= keys(before@).take(k as int).push(id));
            lemma_keys_left_push(keys(before@).take(k as int), id, keys(after@));
        }
        if !has_key(after, id) {
            left.push(id);
        }
        k += 1;
    }
    assert(keys(before@).take(k as int) =~= keys(before@));
    let mut written: Vec<R> = Vec::new();
    let mut k: usize = 0;
    proof {
        reveal(Seq::filter);
        assert(values(after@).take(0) =~= Seq::<R::V>::empty());
        assert(values(written@) =~= rows_written(values(before@), values(after@).take(0)));
    }
    while k < after.len()
        invariant
            k <= after.len(),
            values(written@) == rows_written(values(before@), values(after@).take(k as int)),
        decreases after.len() - k,
    {
        let row = &after[k];
        proof {
            assert(values(after@).take(k + 1) =~= values(after@).take(k as int).push(row@));
            lemma_rows_written_push(values(before@), values(after@).take(k as int), row@);
        }
        if !has_row(before, row) {
            let ghost sofar = written@;
            written.push(row.duplicate());
            assert(values(written@) =~= values(sofar).push(row@));
        }
        k += 1;
    }
    assert(values(after@).take(k as int) =~= values(after@));
    (left, written)
}

} // verus!
