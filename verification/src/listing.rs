//! Listings: rows ordered by the time of their creation, newest first.

use crate::models::{Order, Product};
use vstd::prelude::*;

verus! {

/// A row that records the time of its creation.
pub trait Dated: Sized {
    /// The time at which the row was created.
    spec fn stamp(&self) -> int;

    /// The time at which the row was created.
    fn created(&self) -> (time: i64)
        ensures
            time == self.stamp(),
    ;
}

impl Dated for Product {
    open spec fn stamp(&self) -> int {
        self.created_at as int
    }

    fn created(&self) -> (time: i64) {
        self.created_at
    }
}

impl Dated for Order {
    open spec fn stamp(&self) -> int {
        self.created_at as int
    }

    fn created(&self) -> (time: i64) {
        self.created_at
    }
}

/// Whether no row stands before a newer one.
pub open spec fn newest_first<T: Dated>(rows: Seq<T>) -> bool {
    forall|a: int, b: int|
        0 <= a < b < rows.len() ==> (#[trigger] rows[a]).stamp() >= (#[trigger] rows[b]).stamp()
}

/// Puts a row into a listing that is ordered newest first, behind every
/// row that is as new or newer, and says where.
pub fn insert_by_date<T: Dated>(rows: &mut Vec<T>, row: T) -> (place: usize)
    requires
        newest_first(old(rows)@),
    ensures
        place <= old(rows)@.len(),
        forall|j: int| 0 <= j < place ==> (#[trigger] old(rows)@[j]).stamp() >= row.stamp(),
        forall|j: int| place <= j < old(rows)@.len() ==> (#[trigger] old(rows)@[j]).stamp() < row.stamp(),
        final(rows)@ == old(rows)@.insert(place as int, row),
        newest_first(final(rows)@),
{
    let time = row.created();
    let mut place: usize = 0;
    while place < rows.len() && rows[place].created() >= time
        invariant
            place <= rows.len(),
            rows@ == old(rows)@,
            time == row.stamp(),
            forall|j: int| 0 <= j < place ==> (#[trigger] rows[j]).stamp() >= time,
        decreases rows.len() - place,
    {
        place += 1;
    }
    rows.insert(place, row);
    proof {
        let before = old(rows)@;
        let after = rows@;
        assert forall|j: int| place <= j < before.len() implies (#[trigger] before[j]).stamp() < time by {
            if j > place {
                assert(before[place as int].stamp() >= before[j].stamp());
            }
        }
        assert forall|a: int, b: int| 0 <= a < b < after.len() implies (#[trigger] after[a]).stamp() >= (
        #[trigger] after[b]).stamp() by {
            if b < place {
                assert(after[a] == before[a]);
                assert(after[b] == before[b]);
            } else if b == place {
                assert(after[a] == before[a]);
            } else if a < place {
                assert(after[a] == before[a]);
                assert(after[b] == before[b - 1]);
            } else if a == place {
                assert(after[b] == before[b - 1]);
                assert(before[place as int].stamp() < time);
                if b - 1 > place {
                    assert(before[place as int].stamp() >= before[b - 1].stamp());
                }
            } else {
                assert(after[a] == before[a - 1]);
                assert(after[b] == before[b - 1]);
            }
        }
    }
    place
}

} // verus!
