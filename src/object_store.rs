use std::ops::Deref;
use vstd::prelude::*;
use crate::commit::{ids_view, CommitView, FlowCommit};
use crate::error::FlowError;
use crate::hash::hash_text;
use crate::index::assoc_get;
use crate::objects::{assoc_has, keys_unique, uuid_text, BlobObject, BlobView, CommitId};
use crate::text::{push_text, str_eq};
use vstd::string::StrSliceExecFns;

verus! {

/// An object store as plain values.
pub struct StoreView {
    pub objects_path: Seq<char>,
    /// Each stored blob under the hash it was stored as, in storing order.
    pub blobs: Seq<(Seq<char>, BlobView)>,
    /// Each stored commit, in storing order.
    pub commits: Seq<CommitView>,
    /// The file size recorded for each blob, in the blobs' order; 0 until recorded.
    pub blob_sizes: Seq<u64>,
    /// The file size recorded for each commit, in the commits' order; 0 until recorded.
    pub commit_sizes: Seq<u64>,
}

/// The sum of a list of sizes.
pub open spec fn sizes_sum(s: Seq<u64>) -> nat
    decreases s.len(),
{
    if s.len() == 0 {
        0
    } else {
        (sizes_sum(s.drop_last()) + s.last()) as nat
    }
}

/// Where the blob stored under `k` sits in the list.
pub open spec fn blob_position(b: Seq<(Seq<char>, BlobView)>, k: Seq<char>) -> int {
    choose|i: int| 0 <= i < b.len() && b[i].0 == k
}

/// Where the commit with id `id` sits in the list.
pub open spec fn commit_position(cs: Seq<CommitView>, id: u128) -> int {
    choose|i: int| 0 <= i < cs.len() && cs[i].id == id
}

/// Whether a commit with this id is stored.
pub open spec fn has_commit(cs: Seq<CommitView>, id: u128) -> bool {
    exists|i: int| 0 <= i < cs.len() && cs[i].id == id
}

/// The stored commit with this id.
pub open spec fn commit_with_id(cs: Seq<CommitView>, id: u128) -> CommitView {
    cs[choose|i: int| 0 <= i < cs.len() && cs[i].id == id]
}

pub open spec fn commit_ids_unique(cs: Seq<CommitView>) -> bool {
    forall|i: int, j: int| 0 <= i < j < cs.len() ==> cs[i].id != cs[j].id
}

/// The blobs after storing `content` under `h`: unchanged when something is
/// stored under `h` already, else with the blob added at the end.
pub open spec fn blobs_after_store(
    b: Seq<(Seq<char>, BlobView)>,
    h: Seq<char>,
    content: Seq<u8>,
) -> Seq<(Seq<char>, BlobView)> {
    if assoc_has(b, h) {
        b
    } else {
        b.push((h, BlobView { id: hash_text(content), content }))
    }
}

/// The blobs after storing each content of `bs` in turn under its hash, starting empty.
pub open spec fn blobs_stored_all(bs: Seq<Seq<u8>>) -> Seq<(Seq<char>, BlobView)>
    decreases bs.len(),
{
    if bs.len() == 0 {
        seq![]
    } else {
        blobs_after_store(blobs_stored_all(bs.drop_last()), hash_text(bs.last()), bs.last())
    }
}

/// Every blob is stored under the hash of its content, which is also its id.
pub open spec fn blobs_addressed(b: Seq<(Seq<char>, BlobView)>) -> bool {
    forall|i: int|
        0 <= i < b.len() ==> #[trigger] b[i].0 == hash_text(b[i].1.content) && b[i].1.id == b[i].0
}

/// Content addressing: storing content under its hash twice leaves one blob
/// under that hash; the blob found there has content with that same hash, and
/// is the content itself when nothing was stored under the hash before.
pub proof fn lemma_content_addressing(b: Seq<(Seq<char>, BlobView)>, content: Seq<u8>)
    requires
        keys_unique(b),
        blobs_addressed(b),
    ensures
        ({
            let h = hash_text(content);
            let once = blobs_after_store(b, h, content);
            &&& blobs_after_store(once, h, content) == once
            &&& keys_unique(once)
            &&& blobs_addressed(once)
            &&& assoc_has(once, h)
            &&& assoc_get(once, h) matches Some(v) && hash_text(v.content) == h
            &&& !assoc_has(b, h) ==> assoc_get(once, h) == Some(
                BlobView { id: h, content: content },
            )
        }),
{
    let h = hash_text(content);
    let once = blobs_after_store(b, h, content);
    if !assoc_has(b, h) {
        assert(once[b.len() as int].0 == h);
        assert(assoc_has(once, h));
        let j = choose|j: int| 0 <= j < once.len() && once[j].0 == h;
        assert(j == b.len());
    } else {
        let j = choose|j: int| 0 <= j < once.len() && once[j].0 == h;
        assert(once[j].0 == hash_text(once[j].1.content));
    }
}

/// The blob file for a hash: under `blobs/`, in a directory named by its
/// first two characters, a file named by the rest.
pub open spec fn blob_path_text(root: Seq<char>, h: Seq<char>) -> Seq<char> {
    root + "/blobs/"@ + h.subrange(0, 2) + "/"@ + h.subrange(2, h.len() as int) + ".json"@
}

/// The commit file for an id: under `commits/`, named by the id's text.
pub open spec fn commit_path_text(root: Seq<char>, id: u128) -> Seq<char> {
    root + "/commits/"@ + uuid_text(id) + ".json"@
}

/// A size clamped to `u64::MAX`.
pub open spec fn saturate(n: nat) -> nat {
    if n > u64::MAX {
        u64::MAX as nat
    } else {
        n
    }
}

/// Content-addressed storage of blobs and commits under an objects directory.
#[derive(Debug)]
pub struct ObjectStore {
    objects_path: String,
    blobs: Vec<(String, BlobObject)>,
    commits: Vec<FlowCommit>,
    blob_sizes: Vec<u64>,
    commit_sizes: Vec<u64>,
}

/// Counts over the stored objects.
#[derive(Debug)]
pub struct ObjectStoreStats {
    pub blob_count: u64,
    pub commit_count: u64,
    /// The total recorded file size of the stored objects.
    pub total_size: u64,
}

impl View for ObjectStore {
    type V = StoreView;

    closed spec fn view(&self) -> StoreView {
        StoreView {
            objects_path: self.objects_path@,
            blobs: self.blobs@.map_values(|e: (String, BlobObject)| (e.0@, e.1@)),
            commits: self.commits@.map_values(|c: FlowCommit| c@),
            blob_sizes: self.blob_sizes@,
            commit_sizes: self.commit_sizes@,
        }
    }
}

impl ObjectStore {
    pub open spec fn wf(&self) -> bool {
        &&& keys_unique(self@.blobs)
        &&& commit_ids_unique(self@.commits)
        &&& blobs_addressed(self@.blobs)
        &&& self@.blob_sizes.len() == self@.blobs.len()
        &&& self@.commit_sizes.len() == self@.commits.len()
    }

    /// An empty store rooted at `objects_path`.
    pub fn new(objects_path: &str) -> (r: ObjectStore)
        ensures
            r.wf(),
            r@.objects_path == objects_path@,
            r@.blobs.len() == 0,
            r@.commits.len() == 0,
    {
        let r = ObjectStore {
            objects_path: objects_path.to_owned(),
            blobs: Vec::new(),
            commits: Vec::new(),
            blob_sizes: Vec::new(),
            commit_sizes: Vec::new(),
        };
        assert(r@.blobs =~= Seq::<(Seq<char>, BlobView)>::empty());
        r
    }

    pub fn objects_path(&self) -> (r: &str)
        ensures
            r@ == self@.objects_path,
    {
        self.objects_path.deref()
    }

    fn find_blob(&self, hash: &crate::objects::Hash) -> (r: Option<usize>)
        requires
            self.wf(),
        ensures
            r matches Some(i) ==> i < self@.blobs.len() && self@.blobs[i as int].0 == hash@ && (
            choose|j: int| 0 <= j < self@.blobs.len() && self@.blobs[j].0 == hash@) == i,
            r is None ==> !assoc_has(self@.blobs, hash@),
    {
        let mut i: usize = 0;
        while i < self.blobs.len()
            invariant
                0 <= i <= self.blobs.len(),
                keys_unique(self@.blobs),
                forall|j: int| 0 <= j < i ==> self@.blobs[j].0 != hash@,
            decreases self.blobs.len() - i,
        {
            if str_eq(self.blobs[i].0.deref(), hash.as_str()) {
                assert(self@.blobs[i as int].0 == hash@);
                return Some(i);
            }
            i = i + 1;
        }
        None
    }

    fn find_commit(&self, id: &CommitId) -> (r: Option<usize>)
        requires
            self.wf(),
        ensures
            r matches Some(i) ==> i < self@.commits.len() && self@.commits[i as int].id == id@
                && commit_with_id(self@.commits, id@) == self@.commits[i as int]
                && commit_position(self@.commits, id@) == i,
            r is None ==> !has_commit(self@.commits, id@),
    {
        let mut i: usize = 0;
        while i < self.commits.len()
            invariant
                0 <= i <= self.commits.len(),
                commit_ids_unique(self@.commits),
                forall|j: int| 0 <= j < i ==> self@.commits[j].id != id@,
            decreases self.commits.len() - i,
        {
            if self.commits[i].id.as_uuid() == id.as_uuid() {
                assert(self@.commits[i as int].id == id@);
                return Some(i);
            }
            i = i + 1;
        }
        None
    }

    /// Stores content under `hash`; a no-op if something is already stored under it.
    pub fn store_blob(&mut self, hash: &crate::objects::Hash, content: Vec<u8>) -> (r: Result<
        (),
        FlowError,
    >)
        requires
            old(self).wf(),
            hash@ == hash_text(content@),
        ensures
            r is Ok,
            final(self).wf(),
            final(self)@.objects_path == old(self)@.objects_path,
            final(self)@.commits == old(self)@.commits,
            final(self)@.commit_sizes == old(self)@.commit_sizes,
            final(self)@.blobs == blobs_after_store(old(self)@.blobs, hash@, content@),
            final(self)@.blob_sizes == if assoc_has(old(self)@.blobs, hash@) {
                old(self)@.blob_sizes
            } else {
                old(self)@.blob_sizes.push(0)
            },
    {
        match self.find_blob(hash) {
            Some(_) => {},
            None => {
                let blob = BlobObject::new(content);
                self.blobs.push((hash.to_string(), blob));
                self.blob_sizes.push(0);
                assert(self@.blobs =~= old(self)@.blobs.push(
                    (hash@, BlobView { id: hash_text(content@), content: content@ }),
                ));
            },
        }
        Ok(())
    }

    /// Records the file size of the blob stored under `hash`; nothing happens if there is none.
    pub fn record_blob_size(&mut self, hash: &crate::objects::Hash, size: u64)
        requires
            old(self).wf(),
        ensures
            final(self).wf(),
            final(self)@.objects_path == old(self)@.objects_path,
            final(self)@.blobs == old(self)@.blobs,
            final(self)@.commits == old(self)@.commits,
            final(self)@.commit_sizes == old(self)@.commit_sizes,
            final(self)@.blob_sizes == if assoc_has(old(self)@.blobs, hash@) {
                old(self)@.blob_sizes.update(blob_position(old(self)@.blobs, hash@), size)
            } else {
                old(self)@.blob_sizes
            },
    {
        match self.find_blob(hash) {
            Some(i) => {
                self.blob_sizes.set(i, size);
            },
            None => {},
        }
    }

    /// Records the file size of the commit with this id; nothing happens if there is none.
    pub fn record_commit_size(&mut self, id: &CommitId, size: u64)
        requires
            old(self).wf(),
        ensures
            final(self).wf(),
            final(self)@.objects_path == old(self)@.objects_path,
            final(self)@.blobs == old(self)@.blobs,
            final(self)@.commits == old(self)@.commits,
            final(self)@.blob_sizes == old(self)@.blob_sizes,
            final(self)@.commit_sizes == if has_commit(old(self)@.commits, id@) {
                old(self)@.commit_sizes.update(commit_position(old(self)@.commits, id@), size)
            } else {
                old(self)@.commit_sizes
            },
    {
        match self.find_commit(id) {
            Some(i) => {
                self.commit_sizes.set(i, size);
            },
            None => {},
        }
    }

    /// The blob stored under `hash`.
    pub fn load_blob(&self, hash: &crate::objects::Hash) -> (r: Result<BlobObject, FlowError>)
        requires
            self.wf(),
        ensures
            r is Ok <==> assoc_has(self@.blobs, hash@),
            r matches Ok(b) ==> assoc_get(self@.blobs, hash@) == Some(b@) && b.id@ == hash@,
            r matches Err(e) ==> e matches FlowError::ObjectNotFound(t) && t@ == hash@,
    {
        match self.find_blob(hash) {
            Some(i) => Ok(self.blobs[i].1.clone()),
            None => Err(FlowError::ObjectNotFound(hash.to_string())),
        }
    }

    /// Stores a commit under its id; fails if a commit with that id is stored.
    pub fn store_commit(&mut self, commit: &FlowCommit) -> (r: Result<(), FlowError>)
        requires
            old(self).wf(),
        ensures
            final(self).wf(),
            final(self)@.objects_path == old(self)@.objects_path,
            final(self)@.blobs == old(self)@.blobs,
            r is Ok <==> !has_commit(old(self)@.commits, commit@.id),
            r is Ok ==> final(self)@.commits == old(self)@.commits.push(commit@),
            r is Ok ==> final(self)@.commit_sizes == old(self)@.commit_sizes.push(0),
            final(self)@.blob_sizes == old(self)@.blob_sizes,
            r matches Err(e) ==> e matches FlowError::ObjectAlreadyExists(t) && t@ == uuid_text(
                commit@.id,
            ) && final(self)@ == old(self)@,
    {
        match self.find_commit(&commit.id) {
            Some(_) => Err(FlowError::ObjectAlreadyExists(commit.id.to_string())),
            None => {
                self.commits.push(commit.clone());
                self.commit_sizes.push(0);
                assert(self@.commits =~= old(self)@.commits.push(commit@));
                Ok(())
            },
        }
    }

    /// The commit stored under `id`.
    pub fn load_commit(&self, id: &CommitId) -> (r: Result<FlowCommit, FlowError>)
        requires
            self.wf(),
        ensures
            r is Ok <==> has_commit(self@.commits, id@),
            r matches Ok(c) ==> c@ == commit_with_id(self@.commits, id@),
            r matches Err(e) ==> e matches FlowError::ObjectNotFound(t) && t@ == uuid_text(id@),
    {
        match self.find_commit(id) {
            Some(i) => Ok(self.commits[i].clone()),
            None => Err(FlowError::ObjectNotFound(id.to_string())),
        }
    }

    pub fn commit_count(&self) -> (r: usize)
        ensures
            r == self@.commits.len(),
    {
        self.commits.len()
    }

    pub fn commit_exists(&self, id: &CommitId) -> (r: bool)
        requires
            self.wf(),
        ensures
            r == has_commit(self@.commits, id@),
    {
        self.find_commit(id).is_some()
    }

    pub fn blob_exists(&self, hash: &crate::objects::Hash) -> (r: bool)
        requires
            self.wf(),
        ensures
            r == assoc_has(self@.blobs, hash@),
    {
        self.find_blob(hash).is_some()
    }

    /// The ids of the stored commits, in storing order.
    pub fn list_commits(&self) -> (r: Result<Vec<CommitId>, FlowError>)
        ensures
            r matches Ok(v) && ids_view(v@) == self@.commits.map_values(|c: CommitView| c.id),
    {
        let mut v: Vec<CommitId> = Vec::new();
        let mut i: usize = 0;
        while i < self.commits.len()
            invariant
                0 <= i <= self.commits.len(),
                v@.len() == i,
                forall|j: int| 0 <= j < i ==> (#[trigger] v@[j])@ == self@.commits[j].id,
            decreases self.commits.len() - i,
        {
            v.push(self.commits[i].id);
            i = i + 1;
        }
        assert(ids_view(v@) =~= self@.commits.map_values(|c: CommitView| c.id));
        Ok(v)
    }

    /// The hashes the blobs are stored under, in storing order.
    pub fn list_blobs(&self) -> (r: Vec<crate::objects::Hash>)
        ensures
            r@.map_values(|h: crate::objects::Hash| h@) == self@.blobs.map_values(
                |e: (Seq<char>, BlobView)| e.0,
            ),
    {
        let mut v: Vec<crate::objects::Hash> = Vec::new();
        let mut i: usize = 0;
        while i < self.blobs.len()
            invariant
                0 <= i <= self.blobs.len(),
                v@.len() == i,
                forall|j: int| 0 <= j < i ==> (#[trigger] v@[j])@ == self@.blobs[j].0,
            decreases self.blobs.len() - i,
        {
            v.push(crate::objects::Hash::from_string(self.blobs[i].0.clone()));
            i = i + 1;
        }
        assert(v@.map_values(|h: crate::objects::Hash| h@) =~= self@.blobs.map_values(
            |e: (Seq<char>, BlobView)| e.0,
        ));
        v
    }

    /// Counts of stored blobs and commits, and the total recorded file size of
    /// the stored objects (saturating at `u64::MAX`).
    pub fn get_stats(&self) -> (r: Result<ObjectStoreStats, FlowError>)
        ensures
            r matches Ok(s) && s.blob_count == self@.blobs.len() && s.commit_count
                == self@.commits.len() && s.total_size == saturate(
                sizes_sum(self@.blob_sizes) + sizes_sum(self@.commit_sizes),
            ),
    {
        let mut total: u64 = 0;
        let mut i: usize = 0;
        while i < self.blob_sizes.len()
            invariant
                0 <= i <= self.blob_sizes.len(),
                total == saturate(sizes_sum(self@.blob_sizes.subrange(0, i as int))),
            decreases self.blob_sizes.len() - i,
        {
            proof {
                let s = self@.blob_sizes.subrange(0, i as int + 1);
                assert(s.drop_last() =~= self@.blob_sizes.subrange(0, i as int));
            }
            total = total.saturating_add(self.blob_sizes[i]);
            i = i + 1;
        }
        assert(self@.blob_sizes.subrange(0, self@.blob_sizes.len() as int) =~= self@.blob_sizes);
        let ghost bb = sizes_sum(self@.blob_sizes);
        let mut j: usize = 0;
        while j < self.commit_sizes.len()
            invariant
                0 <= j <= self.commit_sizes.len(),
                bb == sizes_sum(self@.blob_sizes),
                total == saturate(bb + sizes_sum(self@.commit_sizes.subrange(0, j as int))),
            decreases self.commit_sizes.len() - j,
        {
            proof {
                let s = self@.commit_sizes.subrange(0, j as int + 1);
                assert(s.drop_last() =~= self@.commit_sizes.subrange(0, j as int));
            }
            total = total.saturating_add(self.commit_sizes[j]);
            j = j + 1;
        }
        assert(self@.commit_sizes.subrange(0, self@.commit_sizes.len() as int)
            =~= self@.commit_sizes);
        Ok(
            ObjectStoreStats {
                blob_count: self.blobs.len() as u64,
                commit_count: self.commits.len() as u64,
                total_size: total,
            },
        )
    }

    /// Where the blob stored under `hash` lives on disk.
    pub fn get_blob_path(&self, hash: &crate::objects::Hash) -> (r: String)
        requires
            hash@.len() >= 2,
        ensures
            r@ == blob_path_text(self@.objects_path, hash@),
    {
        let h = hash.as_str();
        let n = h.unicode_len();
        let mut p = self.objects_path.clone();
        push_text(&mut p, "/blobs/");
        push_text(&mut p, h.substring_char(0, 2));
        push_text(&mut p, "/");
        push_text(&mut p, h.substring_char(2, n));
        push_text(&mut p, ".json");
        p
    }

    /// Where the commit with this id lives on disk.
    pub fn get_commit_path(&self, id: &CommitId) -> (r: String)
        ensures
            r@ == commit_path_text(self@.objects_path, id@),
    {
        let mut p = self.objects_path.clone();
        push_text(&mut p, "/commits/");
        let t = id.to_string();
        push_text(&mut p, t.deref());
        push_text(&mut p, ".json");
        p
    }
}

} // verus!
