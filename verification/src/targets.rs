//! The names under watch: a mapping from name to identifier in which every
//! name occurs once, kept in the order in which the names were first added.

use vstd::prelude::*;
use vstd::string::*;
use crate::outcome::{Target, TargetView};

verus! {

pub struct TargetMap {
    entries: Vec<Target>,
}

/// No two entries carry the same name.
pub open spec fn names_distinct(entries: Seq<TargetView>) -> bool {
    forall|i: int, j: int|
        0 <= i < entries.len() && 0 <= j < entries.len() && i != j ==> entries[i].name
            != entries[j].name
}

/// `name` is the name of one of the entries.
pub open spec fn has_name(entries: Seq<TargetView>, name: Seq<char>) -> bool {
    exists|i: int| 0 <= i < entries.len() && #[trigger] entries[i].name == name
}

/// The place of the entry that carries `name`.
pub open spec fn place_of(entries: Seq<TargetView>, name: Seq<char>) -> int {
    choose|i: int| 0 <= i < entries.len() && #[trigger] entries[i].name == name
}

/// What `insert` makes of a mapping: a known name keeps its place and gets
/// the new identifier, a new name goes to the end.
pub open spec fn inserted(
    entries: Seq<TargetView>,
    name: Seq<char>,
    identifier: Seq<char>,
) -> Seq<TargetView> {
    if has_name(entries, name) {
        entries.update(place_of(entries, name), TargetView { name, identifier })
    } else {
        entries.push(TargetView { name, identifier })
    }
}

pub open spec fn views_of(targets: Seq<Target>) -> Seq<TargetView> {
    Seq::new(targets.len(), |i: int| targets[i]@)
}

impl TargetMap {
    /// The entries, oldest name first.
    pub closed spec fn view(&self) -> Seq<TargetView> {
        views_of(self.entries@)
    }

    pub closed spec fn wf(&self) -> bool {
        names_distinct(self@)
    }

    pub fn new() -> (map: TargetMap)
        ensures
            map.wf(),
            map@.len() == 0,
    {
        TargetMap { entries: Vec::new() }
    }

    pub fn len(&self) -> (n: usize)
        ensures
            n == self@.len(),
    {
        self.entries.len()
    }

    pub fn is_empty(&self) -> (b: bool)
        ensures
            b == (self@.len() == 0),
    {
        self.entries.len() == 0
    }

    fn find(&self, name: &String) -> (r: Option<usize>)
        requires
            self.wf(),
        ensures
            r is Some <==> has_name(self@, name@),
            r matches Some(i) ==> i < self@.len() && i == place_of(self@, name@),
    {
        let mut i: usize = 0;
        while i < self.entries.len()
            invariant
                i <= self.entries.len(),
                self.wf(),
                forall|j: int| 0 <= j < i ==> (#[trigger] self@[j]).name != name@,
            decreases self.entries.len() - i,
        {
            if self.entries[i].name == *name {
                assert(self@[i as int].name == name@);
                return Some(i);
            }
            i = i + 1;
        }
        None
    }

    /// The identifier stored for `name`, if the name is known.
    pub fn get(&self, name: &str) -> (r: Option<&String>)
        requires
            self.wf(),
        ensures
            r is Some <==> has_name(self@, name@),
            r matches Some(identifier) ==> identifier@ == self@[place_of(
                self@,
                name@,
            )].identifier,
    {
        match self.find(&String::from_str(name)) {
            Some(i) => Some(&self.entries[i].identifier),
            None => None,
        }
    }

    /// Stores `identifier` for `name` and hands back the identifier that the
    /// name had before, if it was known.
    pub fn insert(&mut self, name: String, identifier: String) -> (previous: Option<String>)
        requires
            old(self).wf(),
        ensures
            final(self).wf(),
            final(self)@ == inserted(old(self)@, name@, identifier@),
            previous is Some <==> has_name(old(self)@, name@),
            previous matches Some(p) ==> p@ == old(self)@[place_of(old(self)@, name@)].identifier,
    {
        match self.find(&name) {
            Some(i) => {
                let ghost before = self@;
                let mut entry = Target { name, identifier };
                let slot = &mut self.entries[i];
                std::mem::swap(slot, &mut entry);
                assert(self@ =~= before.update(i as int, TargetView { name: name@, identifier: identifier@ }));
                Some(entry.identifier)
            },
            None => {
                let ghost before = self@;
                self.entries.push(Target { name, identifier });
                assert(self@ =~= before.push(TargetView { name: name@, identifier: identifier@ }));
                None
            },
        }
    }

    /// A copy of the entries, for a round to work on while the mapping
    /// itself stays free to change.
    pub fn snapshot(&self) -> (copy: Vec<Target>)
        ensures
            views_of(copy@) == self@,
    {
        let mut copy: Vec<Target> = Vec::new();
        let mut i: usize = 0;
        while i < self.entries.len()
            invariant
                i <= self.entries.len(),
                copy@.len() == i,
                forall|j: int| 0 <= j < i ==> (#[trigger] copy@[j])@ == self.entries@[j]@,
            decreases self.entries.len() - i,
        {
            let entry = &self.entries[i];
            copy.push(Target { name: entry.name.clone(), identifier: entry.identifier.clone() });
            i = i + 1;
        }
        assert(views_of(copy@) =~= self@);
        copy
    }
}

} // verus!
