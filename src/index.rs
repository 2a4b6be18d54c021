use std::ops::Deref;
use vstd::prelude::*;
use crate::intention::now_seconds;
use crate::objects::{assoc_has, assoc_put, assoc_put_all, keys_unique};
use crate::text::str_eq;

verus! {

/// What the index records for a staged path.
#[derive(Debug)]
pub struct IndexEntry {
    pub hash: crate::objects::Hash,
    pub size: u64,
    /// Seconds since the Unix epoch when the path was staged.
    pub modified_time: u64,
}

/// An index entry as plain values.
pub struct IndexEntryView {
    pub hash: Seq<char>,
    pub size: u64,
    pub modified_time: u64,
}

impl View for IndexEntry {
    type V = IndexEntryView;

    open spec fn view(&self) -> IndexEntryView {
        IndexEntryView { hash: self.hash@, size: self.size, modified_time: self.modified_time }
    }
}

impl Clone for IndexEntry {
    fn clone(&self) -> (r: Self)
        ensures
            r@ == self@,
    {
        IndexEntry { hash: self.hash.clone(), size: self.size, modified_time: self.modified_time }
    }
}

/// The association list without the binding of `k`, if there is one.
pub open spec fn assoc_remove<V>(s: Seq<(Seq<char>, V)>, k: Seq<char>) -> Seq<(Seq<char>, V)> {
    if assoc_has(s, k) {
        s.remove(choose|i: int| 0 <= i < s.len() && s[i].0 == k)
    } else {
        s
    }
}

/// The value bound to `k`, if any.
pub open spec fn assoc_get<V>(s: Seq<(Seq<char>, V)>, k: Seq<char>) -> Option<V> {
    if assoc_has(s, k) {
        Some(s[choose|i: int| 0 <= i < s.len() && s[i].0 == k].1)
    } else {
        None
    }
}

/// The sum of the sizes of staged entries.
pub open spec fn sizes_total(s: Seq<(Seq<char>, IndexEntryView)>) -> nat
    decreases s.len(),
{
    if s.len() == 0 {
        0
    } else {
        (sizes_total(s.drop_last()) + s.last().1.size) as nat
    }
}

/// The staging area: each staged path with its entry, in the order first staged.
#[derive(Debug)]
pub struct Index {
    entries: Vec<(String, IndexEntry)>,
}

/// Counts over the staging area.
#[derive(Debug)]
pub struct IndexStatus {
    pub staged_count: usize,
    pub total_size: u64,
}

impl View for Index {
    type V = Seq<(Seq<char>, IndexEntryView)>;

    closed spec fn view(&self) -> Seq<(Seq<char>, IndexEntryView)> {
        self.entries@.map_values(|e: (String, IndexEntry)| (e.0@, e.1@))
    }
}

impl Index {
    pub open spec fn wf(&self) -> bool {
        keys_unique(self@)
    }

    pub fn new() -> (r: Index)
        ensures
            r.wf(),
            r@ == Seq::<(Seq<char>, IndexEntryView)>::empty(),
    {
        let r = Index { entries: Vec::new() };
        assert(r@ =~= Seq::<(Seq<char>, IndexEntryView)>::empty());
        r
    }

    /// Position of a path in the list, if staged.
    fn find(&self, path: &str) -> (r: Option<usize>)
        requires
            self.wf(),
        ensures
            r matches Some(i) ==> i < self@.len() && self@[i as int].0 == path@ && (choose|j: int|
                0 <= j < self@.len() && self@[j].0 == path@) == i,
            r is None ==> !assoc_has(self@, path@),
    {
        let mut i: usize = 0;
        while i < self.entries.len()
            invariant
                0 <= i <= self.entries.len(),
                keys_unique(self@),
                forall|j: int| 0 <= j < i ==> self@[j].0 != path@,
            decreases self.entries.len() - i,
        {
            if str_eq(self.entries[i].0.deref(), path) {
                assert(self@[i as int].0 == path@);
                return Some(i);
            }
            i = i + 1;
        }
        None
    }

    /// Stages `path` with an explicit staging time, replacing an earlier entry for it.
    pub fn add_file_at(&mut self, path: String, hash: crate::objects::Hash, size: u64, staged_at: u64)
        requires
            old(self).wf(),
        ensures
            final(self).wf(),
            final(self)@ == assoc_put(
                old(self)@,
                path@,
                IndexEntryView { hash: hash@, size, modified_time: staged_at },
            ),
    {
        let ghost e = IndexEntryView { hash: hash@, size, modified_time: staged_at };
        let entry = IndexEntry { hash, size, modified_time: staged_at };
        match self.find(path.deref()) {
            Some(i) => {
                self.entries.set(i, (path, entry));
            },
            None => {
                self.entries.push((path, entry));
            },
        }
        assert(self@ =~= assoc_put(old(self)@, path@, e));
    }

    /// Stages `path`, stamping the current time, replacing an earlier entry for it.
    pub fn add_file(&mut self, path: String, hash: crate::objects::Hash, size: u64) -> (r: Result<
        (),
        crate::error::FlowError,
    >)
        requires
            old(self).wf(),
        ensures
            r is Ok,
            final(self).wf(),
            exists|t: u64|
                final(self)@ == assoc_put(
                    old(self)@,
                    path@,
                    IndexEntryView { hash: hash@, size, modified_time: t },
                ),
    {
        let now = now_seconds();
        self.add_file_at(path, hash, size, now as u64);
        Ok(())
    }

    /// Unstages `path`; nothing happens if it is not staged.
    pub fn remove_file(&mut self, path: &str) -> (r: Result<(), crate::error::FlowError>)
        requires
            old(self).wf(),
        ensures
            r is Ok,
            final(self).wf(),
            final(self)@ == assoc_remove(old(self)@, path@),
    {
        match self.find(path) {
            Some(i) => {
                self.entries.remove(i);
                assert(self@ =~= old(self)@.remove(i as int));
            },
            None => {},
        }
        Ok(())
    }

    pub fn get_file(&self, path: &str) -> (r: Result<Option<IndexEntry>, crate::error::FlowError>)
        requires
            self.wf(),
        ensures
            r matches Ok(o) && match o {
                Some(e) => assoc_get(self@, path@) == Some(e@),
                None => assoc_get(self@, path@) is None,
            },
    {
        match self.find(path) {
            Some(i) => Ok(Some(self.entries[i].1.clone())),
            None => Ok(None),
        }
    }

    /// A copy of every staged path with its entry, in staging order.
    pub fn get_staged_files(&self) -> (r: Result<Vec<(String, IndexEntry)>, crate::error::FlowError>)
        ensures
            r matches Ok(v) && v@.map_values(|e: (String, IndexEntry)| (e.0@, e.1@)) == self@,
    {
        let mut v: Vec<(String, IndexEntry)> = Vec::new();
        let mut i: usize = 0;
        while i < self.entries.len()
            invariant
                0 <= i <= self.entries.len(),
                v@.len() == i,
                forall|j: int|
                    0 <= j < i ==> (#[trigger] v@[j]).0@ == self@[j].0 && v@[j].1@ == self@[j].1,
            decreases self.entries.len() - i,
        {
            v.push((self.entries[i].0.clone(), self.entries[i].1.clone()));
            i = i + 1;
        }
        assert(v@.map_values(|e: (String, IndexEntry)| (e.0@, e.1@)) =~= self@);
        Ok(v)
    }

    pub fn is_file_staged(&self, path: &str) -> (r: Result<bool, crate::error::FlowError>)
        requires
            self.wf(),
        ensures
            r == Ok::<bool, crate::error::FlowError>(assoc_has(self@, path@)),
    {
        Ok(self.find(path).is_some())
    }

    /// Unstages everything.
    pub fn clear(&mut self) -> (r: Result<(), crate::error::FlowError>)
        ensures
            r is Ok,
            final(self).wf(),
            final(self)@ == Seq::<(Seq<char>, IndexEntryView)>::empty(),
    {
        self.entries.clear();
        assert(self@ =~= Seq::<(Seq<char>, IndexEntryView)>::empty());
        Ok(())
    }

    /// The number of staged paths and their total size (saturating at `u64::MAX`).
    pub fn get_status(&self) -> (r: Result<IndexStatus, crate::error::FlowError>)
        ensures
            r matches Ok(s) && s.staged_count == self@.len() && s.total_size == if sizes_total(
                self@,
            ) > u64::MAX {
                u64::MAX as nat
            } else {
                sizes_total(self@)
            },
    {
        let mut total: u64 = 0;
        let mut i: usize = 0;
        while i < self.entries.len()
            invariant
                0 <= i <= self.entries.len(),
                total == if sizes_total(self@.subrange(0, i as int)) > u64::MAX {
                    u64::MAX as nat
                } else {
                    sizes_total(self@.subrange(0, i as int))
                },
            decreases self.entries.len() - i,
        {
            proof {
                let s = self@.subrange(0, i as int + 1);
                assert(s.drop_last() =~= self@.subrange(0, i as int));
            }
            total = total.saturating_add(self.entries[i].1.size);
            i = i + 1;
        }
        assert(self@.subrange(0, self@.len() as int) =~= self@);
        Ok(IndexStatus { staged_count: self.entries.len(), total_size: total })
    }

    /// An index holding the given entries; a later entry for a path replaces an earlier one.
    pub fn from_entries(entries: Vec<(String, IndexEntry)>) -> (r: Index)
        ensures
            r.wf(),
            r@ == assoc_put_all(entries@.map_values(|e: (String, IndexEntry)| (e.0@, e.1@))),
    {
        let ghost views = entries@.map_values(|e: (String, IndexEntry)| (e.0@, e.1@));
        let mut index = Index::new();
        let mut i: usize = 0;
        while i < entries.len()
            invariant
                0 <= i <= entries.len(),
                views == entries@.map_values(|e: (String, IndexEntry)| (e.0@, e.1@)),
                index.wf(),
                index@ == assoc_put_all(views.subrange(0, i as int)),
            decreases entries.len() - i,
        {
            let (path, e) = &entries[i];
            index.add_file_at(path.clone(), e.hash.clone(), e.size, e.modified_time);
            proof {
                assert(views.subrange(0, i as int + 1).drop_last() =~= views.subrange(0, i as int));
                assert(views[i as int] == (path@, e@));
            }
            i = i + 1;
        }
        assert(views.subrange(0, entries@.len() as int) =~= views);
        index
    }
}

impl Default for Index {
    fn default() -> (r: Index)
        ensures
            r.wf(),
            r@ == Seq::<(Seq<char>, IndexEntryView)>::empty(),
    {
        Index::new()
    }
}

} // verus!
