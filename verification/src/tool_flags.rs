//! A small map from tool names to switches, kept as a list of entries in
//! which no name occurs twice.

use vstd::prelude::*;
use crate::text::same_text;

verus! {

/// One tool and its switch.
#[derive(Debug, PartialEq, Eq)]
pub struct ToolFlag {
    pub name: String,
    pub enabled: bool,
}

/// The map that a list of entries stands for; a later entry wins over an
/// earlier one with the same name.
pub open spec fn flags_map(entries: Seq<ToolFlag>) -> Map<Seq<char>, bool>
    decreases entries.len(),
{
    if entries.len() == 0 {
        Map::empty()
    } else {
        flags_map(entries.drop_last()).insert(entries.last().name@, entries.last().enabled)
    }
}

/// No name occurs in two entries.
pub open spec fn names_distinct(entries: Seq<ToolFlag>) -> bool {
    forall|i: int, j: int|
        0 <= i < j < entries.len() ==> (#[trigger] entries[i]).name@ != (#[trigger] entries[j]).name@
}

/// Without its last entry, a list in which no name occurs twice is such a list.
proof fn lemma_distinct_front(entries: Seq<ToolFlag>)
    requires
        names_distinct(entries),
        entries.len() > 0,
    ensures
        names_distinct(entries.drop_last()),
{
    let front = entries.drop_last();
    assert forall|i: int, j: int| 0 <= i < j < front.len() implies (#[trigger] front[i]).name@ != (
    #[trigger] front[j]).name@ by {
        assert(front[i] == entries[i] && front[j] == entries[j]);
    }
}

/// The map of a list holds exactly the names of its entries, and, where no
/// name occurs twice, each with the switch of its entry.
pub proof fn lemma_flags_map(entries: Seq<ToolFlag>)
    ensures
        forall|name: Seq<char>| #[trigger]
            flags_map(entries).dom().contains(name) <==> exists|i: int|
                0 <= i < entries.len() && (#[trigger] entries[i]).name@ == name,
        names_distinct(entries) ==> forall|i: int|
            0 <= i < entries.len() ==> flags_map(entries)[(#[trigger] entries[i]).name@]
                == entries[i].enabled,
        flags_map(entries).dom().finite(),
    decreases entries.len(),
{
    if entries.len() > 0 {
        let front = entries.drop_last();
        let last = entries.last();
        lemma_flags_map(front);
        assert forall|name: Seq<char>| #[trigger]
            flags_map(entries).dom().contains(name) implies exists|i: int|
            0 <= i < entries.len() && (#[trigger] entries[i]).name@ == name by {
            if name == last.name@ {
                assert(entries[entries.len() - 1].name@ == name);
            } else {
                let i = choose|i: int| 0 <= i < front.len() && (#[trigger] front[i]).name@ == name;
                assert(entries[i].name@ == name);
            }
        }
        assert forall|name: Seq<char>|
            (exists|i: int|
                0 <= i < entries.len() && (#[trigger] entries[i]).name@
                    == name) implies #[trigger] flags_map(entries).dom().contains(name) by {
            let i = choose|i: int| 0 <= i < entries.len() && (#[trigger] entries[i]).name@ == name;
            if i < front.len() {
                assert(front[i].name@ == name);
            }
        }
        if names_distinct(entries) {
            lemma_distinct_front(entries);
            assert forall|i: int| 0 <= i < entries.len() implies flags_map(entries)[(
            #[trigger] entries[i]).name@] == entries[i].enabled by {
                if i < front.len() {
                    assert(front[i] == entries[i]);
                    assert(entries[i].name@ != entries[entries.len() - 1].name@);
                }
            }
        }
    }
}

/// Changing the switch of one entry changes the map at that name only.
proof fn lemma_flags_map_update(entries: Seq<ToolFlag>, at: int, flag: ToolFlag)
    requires
        names_distinct(entries),
        0 <= at < entries.len(),
        entries[at].name@ == flag.name@,
    ensures
        flags_map(entries.update(at, flag)) == flags_map(entries).insert(flag.name@, flag.enabled),
        names_distinct(entries.update(at, flag)),
    decreases entries.len(),
{
    let front = entries.drop_last();
    let last = entries.last();
    let changed = entries.update(at, flag);
    if at == entries.len() - 1 {
        assert(changed.drop_last() =~= front);
        assert(flags_map(changed) =~= flags_map(entries).insert(flag.name@, flag.enabled));
    } else {
        lemma_distinct_front(entries);
        assert(front[at] == entries[at]);
        lemma_flags_map_update(front, at, flag);
        assert(changed.drop_last() =~= front.update(at, flag));
        assert(changed.last() == last);
        assert(entries[at].name@ != entries[entries.len() - 1].name@);
        assert(flags_map(changed) =~= flags_map(entries).insert(flag.name@, flag.enabled));
    }
    assert forall|i: int, j: int| 0 <= i < j < changed.len() implies (#[trigger] changed[i]).name@
        != (#[trigger] changed[j]).name@ by {
        assert(changed[i].name@ == entries[i].name@);
        assert(changed[j].name@ == entries[j].name@);
    }
}

/// Switches keyed by tool name.
///
/// The model is the map from names to switches. `==` compares the entries in
/// the order in which their names were first set, so two values with the
/// same map can differ under `==`; use `get` to compare by content.
#[derive(Debug, PartialEq, Eq)]
pub struct ToolFlags {
    entries: Vec<ToolFlag>,
}

impl View for ToolFlags {
    type V = Map<Seq<char>, bool>;

    closed spec fn view(&self) -> Map<Seq<char>, bool> {
        flags_map(self.entries@)
    }
}

impl ToolFlags {
    #[verifier::type_invariant]
    spec fn well_formed(self) -> bool {
        names_distinct(self.entries@)
    }

    /// No switches.
    pub fn new() -> (flags: Self)
        ensures
            flags@ == Map::<Seq<char>, bool>::empty(),
    {
        ToolFlags { entries: Vec::new() }
    }

    /// The entries in the order in which their names were first set. No name
    /// occurs twice.
    pub fn entries(&self) -> (entries: &Vec<ToolFlag>)
        ensures
            flags_map(entries@) == self@,
            names_distinct(entries@),
    {
        proof {
            use_type_invariant(self);
        }
        &self.entries
    }

    /// The number of names that have a switch.
    pub fn len(&self) -> (n: usize)
        ensures
            n == self@.dom().len(),
    {
        proof {
            use_type_invariant(self);
            lemma_flags_len(self.entries@);
        }
        self.entries.len()
    }

    /// The position of the entry for `name`, or the number of entries.
    fn position(&self, name: &str) -> (at: usize)
        ensures
            at <= self.entries@.len(),
            at < self.entries@.len() ==> self.entries@[at as int].name@ == name@,
            at == self.entries@.len() ==> !self@.dom().contains(name@),
    {
        let mut at: usize = 0;
        while at < self.entries.len() && !same_text(self.entries[at].name.as_str(), name)
            invariant
                at <= self.entries.len(),
                forall|i: int| 0 <= i < at ==> (#[trigger] self.entries@[i]).name@ != name@,
            decreases self.entries.len() - at,
        {
            at += 1;
        }
        proof {
            lemma_flags_map(self.entries@);
        }
        at
    }

    /// The switch of `name`, if it has one.
    pub fn get(&self, name: &str) -> (switch: Option<bool>)
        ensures
            switch == if self@.dom().contains(name@) {
                Some(self@[name@])
            } else {
                None
            },
    {
        proof {
            use_type_invariant(self);
            lemma_flags_map(self.entries@);
        }
        let at = self.position(name);
        if at < self.entries.len() {
            Some(self.entries[at].enabled)
        } else {
            None
        }
    }

    /// Sets the switch of `name`, replacing the one it had.
    pub fn insert(&mut self, name: String, enabled: bool)
        ensures
            final(self)@ == old(self)@.insert(name@, enabled),
    {
        proof {
            use_type_invariant(&*self);
            lemma_flags_map(self.entries@);
        }
        let at = self.position(name.as_str());
        let flag = ToolFlag { name, enabled };
        let mut entries: Vec<ToolFlag> = Vec::new();
        std::mem::swap(&mut self.entries, &mut entries);
        let ghost before = entries@;
        if at < entries.len() {
            proof {
                lemma_flags_map_update(before, at as int, flag);
            }
            entries.set(at, flag);
        } else {
            entries.push(flag);
            proof {
                assert(entries@.drop_last() =~= before);
                assert forall|i: int, j: int| 0 <= i < j < entries@.len() implies (
                #[trigger] entries@[i]).name@ != (#[trigger] entries@[j]).name@ by {
                    if j < before.len() {
                        assert(entries@[i] == before[i] && entries@[j] == before[j]);
                    } else {
                        assert(entries@[i] == before[i]);
                        assert(flags_map(before).dom().contains(before[i].name@));
                    }
                }
            }
        }
        self.entries = entries;
    }
}

impl Clone for ToolFlags {
    fn clone(&self) -> (copy: Self)
        ensures
            copy@ == self@,
    {
        proof {
            use_type_invariant(self);
        }
        let mut entries: Vec<ToolFlag> = Vec::new();
        let mut i: usize = 0;
        while i < self.entries.len()
            invariant
                i <= self.entries.len(),
                entries@.len() == i,
                forall|k: int|
                    0 <= k < i ==> (#[trigger] entries@[k]).name@ == self.entries@[k].name@
                        && entries@[k].enabled == self.entries@[k].enabled,
            decreases self.entries.len() - i,
        {
            entries.push(
                ToolFlag { name: self.entries[i].name.clone(), enabled: self.entries[i].enabled },
            );
            i += 1;
        }
        proof {
            lemma_flags_map_same(entries@, self.entries@);
            assert forall|a: int, b: int| 0 <= a < b < entries@.len() implies (
            #[trigger] entries@[a]).name@ != (#[trigger] entries@[b]).name@ by {
                assert(self.entries@[a].name@ != self.entries@[b].name@);
            }
        }
        ToolFlags { entries }
    }
}

/// Lists that agree entry by entry in name and switch stand for the same map.
proof fn lemma_flags_map_same(a: Seq<ToolFlag>, b: Seq<ToolFlag>)
    requires
        a.len() == b.len(),
        forall|k: int|
            0 <= k < a.len() ==> (#[trigger] a[k]).name@ == b[k].name@ && a[k].enabled
                == b[k].enabled,
    ensures
        flags_map(a) == flags_map(b),
    decreases a.len(),
{
    if a.len() > 0 {
        assert forall|k: int| 0 <= k < a.drop_last().len() implies (#[trigger] a.drop_last()[k]).name@
            == b.drop_last()[k].name@ && a.drop_last()[k].enabled == b.drop_last()[k].enabled by {
            assert(a.drop_last()[k] == a[k]);
            assert(b.drop_last()[k] == b[k]);
        }
        lemma_flags_map_same(a.drop_last(), b.drop_last());
        assert(a[a.len() - 1].name@ == b[a.len() - 1].name@);
    }
}

/// With no name twice, the map has as many names as the list has entries.
proof fn lemma_flags_len(entries: Seq<ToolFlag>)
    requires
        names_distinct(entries),
    ensures
        flags_map(entries).dom().finite(),
        flags_map(entries).dom().len() == entries.len(),
    decreases entries.len(),
{
    lemma_flags_map(entries);
    if entries.len() > 0 {
        let front = entries.drop_last();
        lemma_distinct_front(entries);
        lemma_flags_len(front);
        lemma_flags_map(front);
        let name = entries.last().name@;
        if flags_map(front).dom().contains(name) {
            let i = choose|i: int| 0 <= i < front.len() && (#[trigger] front[i]).name@ == name;
            assert(front[i] == entries[i]);
            assert(entries[i].name@ != entries[entries.len() - 1].name@);
        }
        assert(flags_map(entries).dom() =~= flags_map(front).dom().insert(name));
    }
}

} // verus!
