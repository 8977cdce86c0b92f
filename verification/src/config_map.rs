//! The options of one host: names to values, each name at most once.

use crate::text::same_text;
use vstd::prelude::*;

verus! {

/// Options by name.
#[derive(Debug, Clone)]
pub struct ConfigMap {
    entries: Vec<(String, String)>,
}

/// What a list of entries holds.
pub open spec fn entries_map(e: Seq<(String, String)>) -> Map<Seq<char>, Seq<char>>
    decreases e.len(),
{
    if e.len() == 0 {
        Map::empty()
    } else {
        entries_map(e.drop_last()).insert(e.last().0@, e.last().1@)
    }
}

proof fn lemma_entries_map(e: Seq<(String, String)>, i: int)
    requires
        0 <= i < e.len(),
        forall|j: int, k: int| 0 <= j < k < e.len() ==> (#[trigger] e[j]).0@ != (#[trigger] e[k]).0@,
    ensures
        entries_map(e).dom().contains(e[i].0@),
        entries_map(e)[e[i].0@] == e[i].1@,
    decreases e.len(),
{
    if i < e.len() - 1 {
        lemma_entries_map(e.drop_last(), i);
        assert(e.drop_last()[i] == e[i]);
        assert(e[i].0@ != e[e.len() - 1].0@);
    }
}

proof fn lemma_entries_map_dom(e: Seq<(String, String)>, key: Seq<char>)
    requires
        entries_map(e).dom().contains(key),
    ensures
        exists|i: int| 0 <= i < e.len() && (#[trigger] e[i]).0@ == key,
    decreases e.len(),
{
    if e.len() > 0 {
        if e.last().0@ == key {
            assert(e[e.len() - 1].0@ == key);
        } else {
            lemma_entries_map_dom(e.drop_last(), key);
            let i = choose|i: int|
                0 <= i < e.drop_last().len() && (#[trigger] e.drop_last()[i]).0@ == key;
            assert(e[i].0@ == key);
        }
    }
}

proof fn lemma_entries_map_update(e: Seq<(String, String)>, i: int, entry: (String, String))
    requires
        0 <= i < e.len(),
        entry.0@ == e[i].0@,
        forall|j: int, k: int| 0 <= j < k < e.len() ==> (#[trigger] e[j]).0@ != (#[trigger] e[k]).0@,
    ensures
        entries_map(e.update(i, entry)) == entries_map(e).insert(entry.0@, entry.1@),
    decreases e.len(),
{
    let u = e.update(i, entry);
    if i == e.len() - 1 {
        assert(u.drop_last() == e.drop_last());
    } else {
        lemma_entries_map_update(e.drop_last(), i, entry);
        assert(u.drop_last() == e.drop_last().update(i, entry));
        assert(u.last() == e.last());
        assert(e[i].0@ != e[e.len() - 1].0@);
        assert(entries_map(u) =~= entries_map(e).insert(entry.0@, entry.1@));
    }
}

impl ConfigMap {
    pub closed spec fn wf(&self) -> bool {
        forall|j: int, k: int|
            0 <= j < k < self.entries@.len() ==> (#[trigger] self.entries@[j]).0@ != (
            #[trigger] self.entries@[k]).0@
    }

    pub fn new() -> (m: ConfigMap)
        ensures
            m.wf(),
            m@ == Map::<Seq<char>, Seq<char>>::empty(),
    {
        ConfigMap { entries: Vec::new() }
    }

    /// Sets one option, replacing what it held.
    pub fn insert(&mut self, name: &str, value: &str)
        requires
            old(self).wf(),
        ensures
            final(self).wf(),
            final(self)@ == old(self)@.insert(name@, value@),
    {
        let ghost before = self.entries@;
        let mut i: usize = 0;
        while i < self.entries.len()
            invariant
                i <= self.entries.len(),
                self.entries@ == before,
                old(self).wf(),
                before == old(self).entries@,
                forall|j: int| 0 <= j < i ==> (#[trigger] before[j]).0@ != name@,
            decreases self.entries.len() - i,
        {
            if same_text(self.entries[i].0.as_str(), name) {
                let entry = (name.to_owned(), value.to_owned());
                proof {
                    lemma_entries_map_update(before, i as int, entry);
                }
                self.entries.set(i, entry);
                return ;
            }
            i = i + 1;
        }
        self.entries.push((name.to_owned(), value.to_owned()));
        assert(self.entries@.drop_last() == before);
    }

    /// The value of one option.
    pub fn get(&self, name: &str) -> (r: Option<String>)
        requires
            self.wf(),
        ensures
            match r {
                Some(v) => self@.dom().contains(name@) && v@ == self@[name@],
                None => !self@.dom().contains(name@),
            },
    {
        let mut i: usize = 0;
        while i < self.entries.len()
            invariant
                i <= self.entries.len(),
                self.wf(),
                forall|j: int| 0 <= j < i ==> (#[trigger] self.entries@[j]).0@ != name@,
            decreases self.entries.len() - i,
        {
            if same_text(self.entries[i].0.as_str(), name) {
                proof {
                    lemma_entries_map(self.entries@, i as int);
                }
                return Some(self.entries[i].1.clone());
            }
            i = i + 1;
        }
        proof {
            if self@.dom().contains(name@) {
                lemma_entries_map_dom(self.entries@, name@);
            }
        }
        None
    }

    /// Whether the option `name` is set to exactly `value`.
    pub fn has(&self, name: &str, value: &str) -> (r: bool)
        requires
            self.wf(),
        ensures
            r == self.is_set_to(name@, value@),
    {
        match self.get(name) {
            Some(v) => same_text(v.as_str(), value),
            None => false,
        }
    }

    pub open spec fn is_set_to(&self, name: Seq<char>, value: Seq<char>) -> bool {
        self@.dom().contains(name) && self@[name] == value
    }

    /// Sets every option of `other` here.
    pub fn extend(&mut self, other: &ConfigMap)
        requires
            old(self).wf(),
            other.wf(),
        ensures
            final(self).wf(),
            final(self)@ == old(self)@.union_prefer_right(other@),
    {
        let ghost start = self@;
        let mut i: usize = 0;
        assert(other.entries@.take(0) == Seq::<(String, String)>::empty());
        assert(start.union_prefer_right(Map::empty()) =~= start);
        while i < other.entries.len()
            invariant
                i <= other.entries.len(),
                self.wf(),
                other.wf(),
                self@ == start.union_prefer_right(entries_map(other.entries@.take(i as int))),
            decreases other.entries.len() - i,
        {
            let ghost done = other.entries@.take(i as int);
            self.insert(other.entries[i].0.as_str(), other.entries[i].1.as_str());
            i = i + 1;
            assert(other.entries@.take(i as int).drop_last() == done);
            assert(self@ =~= start.union_prefer_right(entries_map(other.entries@.take(i as int))));
        }
        assert(other.entries@.take(other.entries.len() as int) == other.entries@);
    }

    /// A copy with the same options.
    pub fn duplicate(&self) -> (m: ConfigMap)
        requires
            self.wf(),
        ensures
            m.wf(),
            m@ == self@,
    {
        let mut m = ConfigMap::new();
        m.extend(self);
        assert(m@ =~= self@);
        m
    }
}

impl View for ConfigMap {
    type V = Map<Seq<char>, Seq<char>>;

    closed spec fn view(&self) -> Map<Seq<char>, Seq<char>> {
        entries_map(self.entries@)
    }
}

} // verus!
