//! The shape shared by everything a repository can hold: an identifier and a
//! timestamp, both read from the record's mathematical model.

use vstd::prelude::*;
use crate::persistence::Collection;

verus! {

/// A stored record. Its model (`Self::V`) is what contracts speak about; the
/// identifier keys upserts and deletes, the timestamp decides display order.
pub trait Record: View + Sized {
    /// The identifier carried by a record's model.
    spec fn key_of(v: Self::V) -> Seq<char>;

    /// The timestamp (epoch milliseconds) carried by a record's model.
    spec fn stamp_of(v: Self::V) -> u64;

    /// The collection that records of this type are kept in.
    spec fn collection() -> Collection;

    fn id(&self) -> (id: &String)
        ensures
            id@ == Self::key_of(self@),
    ;

    fn timestamp(&self) -> (stamp: u64)
        ensures
            stamp == Self::stamp_of(self@),
    ;

    fn kind() -> (kind: Collection)
        ensures
            kind == Self::collection(),
    ;

    /// An independent copy with the same model.
    fn duplicate(&self) -> (copy: Self)
        ensures
            copy@ == self@,
    ;
}

/// The models of a sequence of values, in the same order.
pub open spec fn views<T: View>(s: Seq<T>) -> Seq<T::V> {
    s.map_values(|x: T| x@)
}

/// Copies a vector element by element.
pub fn duplicate_all<T: Record>(items: &Vec<T>) -> (copy: Vec<T>)
    ensures
        views(copy@) == views(items@),
{
    let mut copy: Vec<T> = Vec::new();
    let mut i: usize = 0;
    while i < items.len()
        invariant
            i <= items.len(),
            views(copy@) == views(items@.take(i as int)),
        decreases items.len() - i,
    {
        let ghost before = copy@;
        copy.push(items[i].duplicate());
        proof {
            assert(items@.take(i + 1) =~= items@.take(i as int).push(items@[i as int]));
            assert(views(copy@) =~= views(before).push(items@[i as int]@));
            assert(views(items@.take(i + 1)) =~= views(items@.take(i as int)).push(
                items@[i as int]@,
            ));
        }
        i += 1;
    }
    proof {
        assert(items@.take(items.len() as int) == items@);
    }
    copy
}

} // verus!
