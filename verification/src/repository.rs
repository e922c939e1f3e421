//! A repository keeps one collection of records in memory, newest first, and
//! says after every change what has to be written back. Reading and writing
//! the file is the caller's part; what the collection holds is decided here.

use vstd::prelude::*;
use crate::persistence::{
    not_found,
    not_found_message,
    persist_report,
    persist_result,
    report_view,
    LoadOutcome,
    PersistOutcome,
    StoreError,
    StoreErrorView,
};
use crate::record::{duplicate_all, views, Record};
use crate::sorting::{
    lemma_sort_desc_filter,
    lemma_sort_desc_fixes_sorted,
    lemma_sort_desc_single,
    lemma_sort_desc_sorted,
    sort_desc,
    sort_newest_first,
    sorted_desc,
};

verus! {

/// Some record of `s` has the identifier `key`.
pub open spec fn has_key<T: Record>(s: Seq<T::V>, key: Seq<char>) -> bool {
    exists|i: int| 0 <= i < s.len() && T::key_of(s[i]) == key
}

/// The position of the first record with identifier `key`, or the length of
/// `s` if there is none.
pub open spec fn first_with_key<T: Record>(s: Seq<T::V>, key: Seq<char>) -> int
    decreases s.len(),
{
    if s.len() == 0 {
        0
    } else if T::key_of(s[0]) == key {
        0
    } else {
        1 + first_with_key::<T>(s.drop_first(), key)
    }
}

/// `s` with `x` put in the place of the first record that has its identifier,
/// or added at the end if no record has it.
pub open spec fn upserted<T: Record>(s: Seq<T::V>, x: T::V) -> Seq<T::V> {
    let at = first_with_key::<T>(s, T::key_of(x));
    if at < s.len() {
        s.update(at, x)
    } else {
        s.push(x)
    }
}

/// The test "has the identifier `key`".
pub open spec fn keyed<T: Record>(key: Seq<char>) -> spec_fn(T::V) -> bool {
    |v: T::V| T::key_of(v) == key
}

/// The test "has another identifier than `key`".
pub open spec fn not_keyed<T: Record>(key: Seq<char>) -> spec_fn(T::V) -> bool {
    |v: T::V| T::key_of(v) != key
}

/// `s` without the records that have the identifier `key`.
pub open spec fn without_key<T: Record>(s: Seq<T::V>, key: Seq<char>) -> Seq<T::V> {
    s.filter(not_keyed::<T>(key))
}

/// The records of `s` that have the identifier `key`, in order.
pub open spec fn with_key<T: Record>(s: Seq<T::V>, key: Seq<char>) -> Seq<T::V> {
    s.filter(keyed::<T>(key))
}

/// No identifier occurs in two records of `s`.
pub open spec fn ids_unique<T: Record>(s: Seq<T::V>) -> bool {
    forall|key: Seq<char>| (#[trigger] with_key::<T>(s, key)).len() <= 1
}

/// What a read of the collection's file stands for: the parsed records, or no
/// records at all when the file is missing, unreadable or malformed.
pub open spec fn loaded_records<T: Record>(outcome: LoadOutcome<Vec<T>>) -> Seq<T::V> {
    match outcome {
        LoadOutcome::Parsed(items) => views(items@),
        _ => Seq::empty(),
    }
}

/// `first_with_key` finds the first record with the identifier, and none
/// exactly when it returns the length.
pub proof fn lemma_first_with_key<T: Record>(s: Seq<T::V>, key: Seq<char>)
    ensures
        0 <= first_with_key::<T>(s, key) <= s.len(),
        first_with_key::<T>(s, key) < s.len() <==> has_key::<T>(s, key),
        first_with_key::<T>(s, key) < s.len() ==> T::key_of(s[first_with_key::<T>(s, key)]) == key,
        forall|i: int| 0 <= i < first_with_key::<T>(s, key) ==> T::key_of(#[trigger] s[i]) != key,
    decreases s.len(),
{
    if s.len() == 0 {
    } else if T::key_of(s[0]) == key {
        assert(0 <= 0 < s.len() && T::key_of(s[0]) == key);
    } else {
        let rest = s.drop_first();
        lemma_first_with_key::<T>(rest, key);
        let at = first_with_key::<T>(rest, key);
        if at < rest.len() {
            assert(rest[at] == s[at + 1]);
            assert(0 <= at + 1 < s.len() && T::key_of(s[at + 1]) == key);
        }
        if has_key::<T>(s, key) {
            let i = choose|i: int| 0 <= i < s.len() && T::key_of(s[i]) == key;
            assert(rest[i - 1] == s[i]);
            assert(0 <= i - 1 < rest.len() && T::key_of(rest[i - 1]) == key);
        }
        assert forall|i: int| 0 <= i < at + 1 implies T::key_of(#[trigger] s[i]) != key by {
            if i > 0 {
                assert(rest[i - 1] == s[i]);
            }
        }
    }
}

/// A collection of records of one kind, kept newest first.
///
/// A repository starts out empty. While it is empty nothing has been loaded
/// yet (or nothing is stored), and `get_all` asks for the file to be read.
pub struct Repository<T: Record> {
    items: Vec<T>,
}

impl<T: Record> View for Repository<T> {
    type V = Seq<T::V>;

    closed spec fn view(&self) -> Seq<T::V> {
        views(self.items@)
    }
}

impl<T: Record> Repository<T> {
    #[verifier::type_invariant]
    spec fn newest_first(self) -> bool {
        sorted_desc::<T>(views(self.items@))
    }

    /// The records as they are held, which is what `snapshot` hands out.
    pub closed spec fn held(&self) -> Vec<T> {
        self.items
    }

    /// The model of a repository is the model of the records it holds.
    pub proof fn lemma_held(&self)
        ensures
            views(self.held()@) == self@,
    {
    }

    /// A repository that holds nothing yet.
    pub fn new() -> (repo: Self)
        ensures
            repo@ == Seq::<T::V>::empty(),
    {
        Repository { items: Vec::new() }
    }

    /// Whether the repository holds records, so that reads are served from
    /// memory.
    pub fn is_loaded(&self) -> (loaded: bool)
        ensures
            loaded == (self@.len() > 0),
            sorted_desc::<T>(self@),
    {
        proof {
            use_type_invariant(self);
        }
        self.items.len() > 0
    }

    /// The records to write to the collection's file: all of them, in order.
    pub fn snapshot(&self) -> (items: &Vec<T>)
        ensures
            *items == self.held(),
            views(items@) == self@,
            sorted_desc::<T>(self@),
    {
        proof {
            use_type_invariant(self);
        }
        &self.items
    }

    /// A copy of the records held in memory, newest first, or `None` when the
    /// repository is empty and the file has to be read (see `load`).
    pub fn get_all(&self) -> (hit: Option<Vec<T>>)
        ensures
            sorted_desc::<T>(self@),
            self@.len() == 0 ==> hit is None,
            self@.len() > 0 ==> hit is Some && views(hit->Some_0@) == self@,
    {
        proof {
            use_type_invariant(self);
        }
        if self.items.len() > 0 {
            Some(duplicate_all(&self.items))
        } else {
            None
        }
    }

    /// Completes a read: takes what reading the file came back with and
    /// returns the records, newest first.
    ///
    /// A repository that already holds records keeps them and ignores
    /// `outcome`. An empty one takes the parsed records, sorted; a missing,
    /// unreadable or malformed file counts as a file without records.
    pub fn load(&mut self, outcome: LoadOutcome<Vec<T>>) -> (all: Vec<T>)
        ensures
            old(self)@.len() > 0 ==> final(self)@ == old(self)@,
            old(self)@.len() == 0 ==> final(self)@ == sort_desc::<T>(loaded_records(outcome)),
            views(all@) == final(self)@,
            sorted_desc::<T>(final(self)@),
            final(self)@.len() == if old(self)@.len() > 0 {
                old(self)@.len()
            } else {
                loaded_records(outcome).len()
            },
            old(self)@.len() == 0 && ids_unique::<T>(loaded_records(outcome)) ==> ids_unique::<T>(
                final(self)@,
            ),
    {
        proof {
            use_type_invariant(&*self);
        }
        if self.items.len() == 0 {
            let loaded = match outcome {
                LoadOutcome::Parsed(items) => items,
                _ => Vec::new(),
            };
            proof {
                lemma_sort_desc_sorted::<T>(views(loaded@));
                if ids_unique::<T>(views(loaded@)) {
                    lemma_sort_keeps_ids_unique::<T>(views(loaded@));
                }
            }
            self.items = sort_newest_first(loaded);
        }
        duplicate_all(&self.items)
    }

    /// Returns the records, newest first, reading the file only if the
    /// repository is empty: `loader` is then called once, and what it comes
    /// back with is taken as by `load`. A repository that holds records does
    /// not call `loader`.
    pub fn get_or_load<F: FnOnce() -> LoadOutcome<Vec<T>>>(&mut self, loader: F) -> (all: Vec<T>)
        requires
            loader.requires(()),
        ensures
            old(self)@.len() > 0 ==> final(self)@ == old(self)@,
            old(self)@.len() == 0 ==> exists|outcome: LoadOutcome<Vec<T>>|
                loader.ensures((), outcome) && final(self)@ == sort_desc::<T>(
                    loaded_records(outcome),
                ),
            views(all@) == final(self)@,
            sorted_desc::<T>(final(self)@),
    {
        match self.get_all() {
            Some(all) => all,
            None => {
                let outcome = loader();
                self.load(outcome)
            },
        }
    }

    /// Stores `item`: in the place of the first record with its identifier, or
    /// as a new record. The collection is then sorted again, and the caller
    /// writes `snapshot()` to the file.
    pub fn upsert(&mut self, item: T)
        ensures
            final(self)@ == sort_desc::<T>(upserted::<T>(old(self)@, item@)),
            sorted_desc::<T>(final(self)@),
            final(self)@.len() == if has_key::<T>(old(self)@, T::key_of(item@)) {
                old(self)@.len()
            } else {
                old(self)@.len() + 1
            },
            ids_unique::<T>(old(self)@) ==> ids_unique::<T>(final(self)@) && with_key::<T>(
                final(self)@,
                T::key_of(item@),
            ) == seq![item@],
    {
        proof {
            use_type_invariant(&*self);
        }
        let mut items: Vec<T> = Vec::new();
        std::mem::swap(&mut self.items, &mut items);
        let ghost before = views(items@);
        let mut at: usize = 0;
        while at < items.len() && !same_id(items[at].id(), item.id())
            invariant
                at <= items.len(),
                views(items@) == before,
                forall|i: int| 0 <= i < at ==> T::key_of(#[trigger] before[i]) != T::key_of(item@),
            decreases items.len() - at,
        {
            proof {
                assert(before[at as int] == items@[at as int]@);
            }
            at += 1;
        }
        proof {
            lemma_first_with_key::<T>(before, T::key_of(item@));
            let first = first_with_key::<T>(before, T::key_of(item@));
            if at < items.len() {
                assert(before[at as int] == items@[at as int]@);
                assert(first == at);
                assert(views(items@.update(at as int, item)) =~= before.update(at as int, item@));
            } else {
                assert(first == before.len());
                assert(views(items@.push(item)) =~= before.push(item@));
            }
        }
        if at < items.len() {
            items.set(at, item);
        } else {
            items.push(item);
        }
        proof {
            lemma_sort_desc_sorted::<T>(views(items@));
            if ids_unique::<T>(before) {
                lemma_upsert_keeps_ids_unique::<T>(before, item@);
            }
        }
        self.items = sort_newest_first(items);
    }

    /// Stores `item` as `upsert` does and has the collection written:
    /// `persist` is called once with all records, and what it comes back with
    /// is reported as by `persist_result`. The record stays stored in memory
    /// when the write fails.
    pub fn upsert_with<F: FnOnce(&Vec<T>) -> PersistOutcome>(&mut self, item: T, persist: F) -> (report:
        Result<(), StoreError>)
        requires
            forall|items: &Vec<T>| persist.requires((items,)),
        ensures
            final(self)@ == sort_desc::<T>(upserted::<T>(old(self)@, item@)),
            sorted_desc::<T>(final(self)@),
            exists|outcome: PersistOutcome|
                persist.ensures((&final(self).held(),), outcome) && report_view(report)
                    == persist_report(T::collection(), false, outcome@),
    {
        self.upsert(item);
        let outcome = persist(self.snapshot());
        persist_result(T::kind(), false, outcome)
    }

    /// Removes the records with identifier `id` as `delete` does and has the
    /// collection written. If no record has the identifier, `persist` is not
    /// called and the result is the `NotFound` error; otherwise it is called
    /// once with the records that are left, and what it comes back with is
    /// reported as by `persist_result`.
    pub fn delete_with<F: FnOnce(&Vec<T>) -> PersistOutcome>(&mut self, id: &String, persist: F) -> (report:
        Result<(), StoreError>)
        requires
            forall|items: &Vec<T>| persist.requires((items,)),
        ensures
            sorted_desc::<T>(final(self)@),
            !has_key::<T>(old(self)@, id@) ==> final(self)@ == old(self)@ && report_view(report)
                == Err::<(), StoreErrorView>(
                StoreErrorView::NotFound(not_found_message(T::collection(), id@)),
            ),
            has_key::<T>(old(self)@, id@) ==> final(self)@ == without_key::<T>(old(self)@, id@)
                && exists|outcome: PersistOutcome|
                persist.ensures((&final(self).held(),), outcome) && report_view(report)
                    == persist_report(T::collection(), true, outcome@),
    {
        match self.delete(id) {
            Err(e) => Err(e),
            Ok(()) => {
                let outcome = persist(self.snapshot());
                persist_result(T::kind(), true, outcome)
            },
        }
    }

    /// Removes the records with identifier `id`.
    ///
    /// If there is none, nothing changes, nothing is to be written, and the
    /// result is the `NotFound` error. Otherwise the caller writes
    /// `snapshot()` to the file.
    pub fn delete(&mut self, id: &String) -> (removed: Result<(), StoreError>)
        ensures
            sorted_desc::<T>(final(self)@),
            !has_key::<T>(final(self)@, id@),
            ids_unique::<T>(old(self)@) ==> ids_unique::<T>(final(self)@),
            has_key::<T>(old(self)@, id@) ==> removed is Ok && final(self)@ == without_key::<T>(
                old(self)@,
                id@,
            ),
            !has_key::<T>(old(self)@, id@) ==> final(self)@ == old(self)@ && removed is Err
                && removed->Err_0@ == StoreErrorView::NotFound(
                not_found_message(T::collection(), id@),
            ),
    {
        proof {
            use_type_invariant(&*self);
        }
        let mut items: Vec<T> = Vec::new();
        std::mem::swap(&mut self.items, &mut items);
        let ghost before = views(items@);
        let ghost keep = not_keyed::<T>(id@);
        let initial_len = items.len();
        let mut i: usize = 0;
        let ghost mut done: int = 0;
        proof {
            assert(before.take(0).filter(keep) =~= Seq::<T::V>::empty());
            assert(Seq::<T::V>::empty() + before.skip(0) =~= before);
        }
        while i < items.len()
            invariant
                0 <= done <= before.len(),
                i <= items.len(),
                i == before.take(done).filter(keep).len(),
                views(items@) == before.take(done).filter(keep) + before.skip(done),
                keep == not_keyed::<T>(id@),
            decreases items.len() - i,
        {
            let ghost kept = before.take(done).filter(keep);
            let ghost held = items@;
            proof {
                assert(views(held)[i as int] == before.skip(done)[0]);
                assert(done < before.len());
                assert(held[i as int]@ == before[done]);
                assert(before.take(done + 1) =~= before.take(done).push(before[done]));
                before.take(done).lemma_filter_push(before[done], keep);
            }
            if same_id(items[i].id(), id) {
                items.remove(i);
                proof {
                    assert(views(items@) =~= views(held).remove(i as int));
                    assert((kept + before.skip(done)).remove(i as int) =~= kept + before.skip(
                        done + 1,
                    ));
                }
            } else {
                proof {
                    assert(views(items@) =~= kept.push(before[done]) + before.skip(done + 1));
                }
                i += 1;
            }
            proof {
                done = done + 1;
            }
        }
        proof {
            assert(before.take(done).filter(keep).len() + before.skip(done).len() == items.len());
            assert(done == before.len());
            assert(before.take(done) =~= before);
            assert(views(items@) =~= before.filter(keep));
            lemma_without_key::<T>(before, id@);
            lemma_filter_sorted::<T>(before, keep);
            if ids_unique::<T>(before) {
                lemma_delete_keeps_ids_unique::<T>(before, id@);
            }
        }
        let found = items.len() < initial_len;
        self.items = items;
        if found {
            Ok(())
        } else {
            Err(not_found(T::kind(), id.as_str()))
        }
    }
}

/// Whether two identifiers are the same text.
fn same_id(a: &String, b: &String) -> (same: bool)
    ensures
        same == (a@ == b@),
{
    *a == *b
}

/// Dropping records from a newest-first sequence leaves it newest-first.
pub proof fn lemma_filter_sorted<T: Record>(s: Seq<T::V>, keep: spec_fn(T::V) -> bool)
    requires
        sorted_desc::<T>(s),
    ensures
        sorted_desc::<T>(s.filter(keep)),
{
    lemma_sort_desc_fixes_sorted::<T>(s);
    lemma_sort_desc_filter::<T>(s, keep);
    lemma_sort_desc_sorted::<T>(s.filter(keep));
}

/// Removing an identifier shortens the sequence exactly when a record has it;
/// when none has it, the sequence stays as it is. No record with the
/// identifier is left.
pub proof fn lemma_without_key<T: Record>(s: Seq<T::V>, key: Seq<char>)
    ensures
        without_key::<T>(s, key).len() <= s.len(),
        without_key::<T>(s, key).len() < s.len() <==> has_key::<T>(s, key),
        !has_key::<T>(s, key) ==> without_key::<T>(s, key) == s,
        !has_key::<T>(without_key::<T>(s, key), key),
    decreases s.len(),
{
    let keep = not_keyed::<T>(key);
    if s.len() == 0 {
        assert(s.filter(keep) =~= s);
    } else {
        let front = s.drop_last();
        let last = s.last();
        lemma_without_key::<T>(front, key);
        assert(s =~= front.push(last));
        front.lemma_filter_push(last, keep);
        if has_key::<T>(front, key) {
            let i = choose|i: int| 0 <= i < front.len() && T::key_of(front[i]) == key;
            assert(s[i] == front[i]);
            assert(0 <= i < s.len() && T::key_of(s[i]) == key);
        }
        if T::key_of(last) == key {
            assert(0 <= s.len() - 1 < s.len() && T::key_of(s[s.len() - 1]) == key);
        }
        if has_key::<T>(s, key) {
            let i = choose|i: int| 0 <= i < s.len() && T::key_of(s[i]) == key;
            if i < front.len() {
                assert(front[i] == s[i]);
                assert(0 <= i < front.len() && T::key_of(front[i]) == key);
            }
        }
        let out = s.filter(keep);
        if has_key::<T>(out, key) {
            let i = choose|i: int| 0 <= i < out.len() && T::key_of(out[i]) == key;
            s.lemma_filter_pred(keep, i);
        }
    }
}

/// Where no record of `s` satisfies `keep`, filtering leaves nothing.
proof fn lemma_filter_none<T: Record>(s: Seq<T::V>, keep: spec_fn(T::V) -> bool)
    requires
        forall|i: int| 0 <= i < s.len() ==> !keep(#[trigger] s[i]),
    ensures
        s.filter(keep) == Seq::<T::V>::empty(),
{
    let out = s.filter(keep);
    if out.len() > 0 {
        s.lemma_filter_pred(keep, 0);
        assert(out.contains(out[0]));
        s.lemma_filter_contains_rev(keep, out[0]);
    }
    assert(out =~= Seq::<T::V>::empty());
}

/// Filtering a one-record sequence keeps the record or nothing.
proof fn lemma_filter_single<T: Record>(x: T::V, keep: spec_fn(T::V) -> bool)
    ensures
        seq![x].filter(keep) == if keep(x) {
            seq![x]
        } else {
            Seq::<T::V>::empty()
        },
{
    Seq::<T::V>::empty().lemma_filter_push(x, keep);
    assert(Seq::<T::V>::empty().push(x) =~= seq![x]);
    assert(Seq::<T::V>::empty().filter(keep) =~= Seq::<T::V>::empty());
}

/// What filtering makes of an upsert. Where a record has the identifier of
/// `x`, the records in front of the first such record and those behind it are
/// filtered as before, and between them stands `x` if it passes the filter,
/// where the record it replaces stood if that passed. Where no record has the
/// identifier, `x` is added at the end if it passes.
proof fn lemma_upserted_filter<T: Record>(s: Seq<T::V>, x: T::V, keep: spec_fn(T::V) -> bool)
    ensures
        ({
            let at = first_with_key::<T>(s, T::key_of(x));
            let head = s.take(at).filter(keep);
            let tail = s.skip(at + 1).filter(keep);
            &&& 0 <= at <= s.len()
            &&& at < s.len() ==> upserted::<T>(s, x).filter(keep) == head + seq![x].filter(keep)
                + tail && s.filter(keep) == head + seq![s[at]].filter(keep) + tail
            &&& at == s.len() ==> upserted::<T>(s, x).filter(keep) == s.filter(keep) + seq![
                x,
            ].filter(keep)
        }),
{
    lemma_first_with_key::<T>(s, T::key_of(x));
    let at = first_with_key::<T>(s, T::key_of(x));
    if at < s.len() {
        let head = s.take(at);
        let tail = s.skip(at + 1);
        assert(s =~= head + seq![s[at]] + tail);
        assert(s.update(at, x) =~= head + seq![x] + tail);
        Seq::filter_distributes_over_add(head + seq![s[at]], tail, keep);
        Seq::filter_distributes_over_add(head, seq![s[at]], keep);
        Seq::filter_distributes_over_add(head + seq![x], tail, keep);
        Seq::filter_distributes_over_add(head, seq![x], keep);
    } else {
        assert(s.push(x) =~= s + seq![x]);
        Seq::filter_distributes_over_add(s, seq![x], keep);
    }
}

/// After an upsert exactly one record has the identifier of `x`, and it is
/// `x`, provided at most one record had that identifier before.
pub proof fn lemma_upserted_with_key<T: Record>(s: Seq<T::V>, x: T::V)
    requires
        with_key::<T>(s, T::key_of(x)).len() <= 1,
    ensures
        with_key::<T>(upserted::<T>(s, x), T::key_of(x)) == seq![x],
{
    let is_key = keyed::<T>(T::key_of(x));
    let at = first_with_key::<T>(s, T::key_of(x));
    let head = s.take(at);
    lemma_first_with_key::<T>(s, T::key_of(x));
    lemma_upserted_filter::<T>(s, x, is_key);
    lemma_filter_single::<T>(x, is_key);
    assert forall|i: int| 0 <= i < head.len() implies !is_key(#[trigger] head[i]) by {
        assert(head[i] == s[i]);
    }
    lemma_filter_none::<T>(head, is_key);
    if at < s.len() {
        lemma_filter_single::<T>(s[at], is_key);
        assert(s.skip(at + 1).filter(is_key).len() == 0);
    } else {
        assert(head =~= s);
    }
    assert(upserted::<T>(s, x).filter(is_key) =~= seq![x]);
}

/// Storing the same record twice is the same as storing it once: the
/// collection then holds exactly one record with that identifier, the stored
/// one. This is stated for collections in which at most one record has the
/// identifier to begin with.
pub proof fn lemma_upsert_idempotent<T: Record>(s: Seq<T::V>, x: T::V)
    requires
        with_key::<T>(s, T::key_of(x)).len() <= 1,
    ensures
        ({
            let once = sort_desc::<T>(upserted::<T>(s, x));
            let twice = sort_desc::<T>(upserted::<T>(once, x));
            &&& twice == once
            &&& with_key::<T>(twice, T::key_of(x)) == seq![x]
        }),
{
    let key = T::key_of(x);
    let is_key = keyed::<T>(key);
    let stored = upserted::<T>(s, x);
    let once = sort_desc::<T>(stored);
    lemma_upserted_with_key::<T>(s, x);
    lemma_sort_desc_filter::<T>(stored, is_key);
    lemma_sort_desc_single::<T>(x);
    assert(with_key::<T>(once, key) == seq![x]);
    lemma_sort_desc_sorted::<T>(stored);
    lemma_first_with_key::<T>(once, key);
    let at = first_with_key::<T>(once, key);
    assert(seq![x].contains(x)) by {
        assert(seq![x][0] == x);
    }
    once.lemma_filter_contains_rev(is_key, x);
    let w = choose|i: int| 0 <= i < once.len() && once[i] == x;
    assert(0 <= w < once.len() && T::key_of(once[w]) == key);
    assert(at < once.len());
    once.lemma_filter_contains(is_key, at);
    assert(with_key::<T>(once, key).contains(once[at]));
    assert(once[at] == x);
    assert(once.update(at, x) =~= once);
    lemma_sort_desc_fixes_sorted::<T>(once);
}

/// Filtering twice can be done in either order.
proof fn lemma_filter_commutes<T: Record>(
    s: Seq<T::V>,
    p: spec_fn(T::V) -> bool,
    q: spec_fn(T::V) -> bool,
)
    ensures
        s.filter(p).filter(q) == s.filter(q).filter(p),
    decreases s.len(),
{
    if s.len() == 0 {
        assert(s.filter(p) =~= s);
        assert(s.filter(q) =~= s);
    } else {
        let front = s.drop_last();
        let last = s.last();
        lemma_filter_commutes::<T>(front, p, q);
        assert(s =~= front.push(last));
        front.lemma_filter_push(last, p);
        front.lemma_filter_push(last, q);
        front.filter(p).lemma_filter_push(last, q);
        front.filter(q).lemma_filter_push(last, p);
    }
}

/// Sorting keeps identifiers unique.
pub proof fn lemma_sort_keeps_ids_unique<T: Record>(s: Seq<T::V>)
    requires
        ids_unique::<T>(s),
    ensures
        ids_unique::<T>(sort_desc::<T>(s)),
{
    assert forall|key: Seq<char>| (#[trigger] with_key::<T>(sort_desc::<T>(s), key)).len()
        <= 1 by {
        lemma_sort_desc_filter::<T>(s, keyed::<T>(key));
        lemma_sort_desc_sorted::<T>(with_key::<T>(s, key));
    }
}

/// An upsert leaves the records with other identifiers as they are.
proof fn lemma_upserted_other_key<T: Record>(s: Seq<T::V>, x: T::V, key: Seq<char>)
    requires
        key != T::key_of(x),
    ensures
        with_key::<T>(upserted::<T>(s, x), key) == with_key::<T>(s, key),
{
    let is_key = keyed::<T>(key);
    let at = first_with_key::<T>(s, T::key_of(x));
    lemma_first_with_key::<T>(s, T::key_of(x));
    lemma_upserted_filter::<T>(s, x, is_key);
    lemma_filter_single::<T>(x, is_key);
    if at < s.len() {
        lemma_filter_single::<T>(s[at], is_key);
    } else {
        assert(s.filter(is_key) + Seq::<T::V>::empty() =~= s.filter(is_key));
    }
}

/// An upsert keeps identifiers unique.
pub proof fn lemma_upsert_keeps_ids_unique<T: Record>(s: Seq<T::V>, x: T::V)
    requires
        ids_unique::<T>(s),
    ensures
        ids_unique::<T>(sort_desc::<T>(upserted::<T>(s, x))),
        with_key::<T>(sort_desc::<T>(upserted::<T>(s, x)), T::key_of(x)) == seq![x],
{
    let stored = upserted::<T>(s, x);
    assert(with_key::<T>(s, T::key_of(x)).len() <= 1);
    lemma_upserted_with_key::<T>(s, x);
    assert forall|key: Seq<char>| (#[trigger] with_key::<T>(stored, key)).len() <= 1 by {
        if key != T::key_of(x) {
            lemma_upserted_other_key::<T>(s, x, key);
            assert(with_key::<T>(s, key).len() <= 1);
        }
    }
    lemma_sort_keeps_ids_unique::<T>(stored);
    lemma_sort_desc_filter::<T>(stored, keyed::<T>(T::key_of(x)));
    lemma_sort_desc_single::<T>(x);
}

/// A delete keeps identifiers unique.
pub proof fn lemma_delete_keeps_ids_unique<T: Record>(s: Seq<T::V>, id: Seq<char>)
    requires
        ids_unique::<T>(s),
    ensures
        ids_unique::<T>(without_key::<T>(s, id)),
{
    assert forall|key: Seq<char>| (#[trigger] with_key::<T>(without_key::<T>(s, id), key)).len()
        <= 1 by {
        lemma_filter_commutes::<T>(s, not_keyed::<T>(id), keyed::<T>(key));
        with_key::<T>(s, key).lemma_filter_len(not_keyed::<T>(id));
        assert(with_key::<T>(s, key).len() <= 1);
    }
}

/// Reading back what was written reproduces the collection: a repository
/// that starts empty and loads a snapshot holds that snapshot, record for
/// record and in the same order.
pub proof fn lemma_reload_reproduces<T: Record>(snapshot: Vec<T>)
    requires
        sorted_desc::<T>(views(snapshot@)),
    ensures
        sort_desc::<T>(loaded_records(LoadOutcome::Parsed(snapshot))) == views(snapshot@),
{
    lemma_sort_desc_fixes_sorted::<T>(views(snapshot@));
}

} // verus!
