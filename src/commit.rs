use std::ops::Deref;
use vstd::prelude::*;
use crate::error::FlowError;
use crate::hash::hash_text;
use crate::intention::{now_seconds, Intention, IntentionView};
use crate::objects::{
    uuid_text, uuid_to_text, CommitId, FileChange, FileChangeView, UUID_V4_BITS,
    UUID_VERSION_VARIANT_MASK,
};
use crate::text::{push_text, str_eq};
use vstd::utf8::*;

verus! {

/// A signature attached to a commit.
#[derive(Debug)]
pub struct CommitSignature {
    pub algorithm: String,
    pub signature: String,
    pub public_key: String,
}

/// A signature as plain values.
pub struct SignatureView {
    pub algorithm: Seq<char>,
    pub signature: Seq<char>,
    pub public_key: Seq<char>,
}

impl View for CommitSignature {
    type V = SignatureView;

    open spec fn view(&self) -> SignatureView {
        SignatureView {
            algorithm: self.algorithm@,
            signature: self.signature@,
            public_key: self.public_key@,
        }
    }
}

impl Clone for CommitSignature {
    fn clone(&self) -> (r: Self)
        ensures
            r@ == self@,
    {
        CommitSignature {
            algorithm: self.algorithm.clone(),
            signature: self.signature.clone(),
            public_key: self.public_key.clone(),
        }
    }
}

pub open spec fn opt_signature_view(s: Option<CommitSignature>) -> Option<SignatureView> {
    match s {
        Some(x) => Some(x@),
        None => None,
    }
}

/// A commit: a rationale, the changes it records, the flat tree hash, and its parents.
#[derive(Debug)]
pub struct FlowCommit {
    pub id: CommitId,
    pub intention: Intention,
    pub changes: Vec<FileChange>,
    pub tree_hash: crate::objects::Hash,
    pub parent_commits: Vec<CommitId>,
    /// Seconds since the Unix epoch.
    pub timestamp: i64,
    pub signature: Option<CommitSignature>,
}

/// A commit as plain values.
pub struct CommitView {
    pub id: u128,
    pub intention: IntentionView,
    pub changes: Seq<FileChangeView>,
    pub tree_hash: Seq<char>,
    pub parent_commits: Seq<u128>,
    pub timestamp: i64,
    pub signature: Option<SignatureView>,
}

pub open spec fn changes_view(v: Seq<FileChange>) -> Seq<FileChangeView> {
    v.map_values(|c: FileChange| c@)
}

pub open spec fn ids_view(v: Seq<CommitId>) -> Seq<u128> {
    v.map_values(|c: CommitId| c@)
}

impl View for FlowCommit {
    type V = CommitView;

    open spec fn view(&self) -> CommitView {
        CommitView {
            id: self.id@,
            intention: self.intention@,
            changes: changes_view(self.changes@),
            tree_hash: self.tree_hash@,
            parent_commits: ids_view(self.parent_commits@),
            timestamp: self.timestamp,
            signature: opt_signature_view(self.signature),
        }
    }
}

fn clone_changes(v: &Vec<FileChange>) -> (r: Vec<FileChange>)
    ensures
        changes_view(r@) == changes_view(v@),
{
    let mut r: Vec<FileChange> = Vec::new();
    let mut i: usize = 0;
    while i < v.len()
        invariant
            0 <= i <= v.len(),
            r@.len() == i,
            forall|j: int| 0 <= j < i ==> #[trigger] r@[j]@ == v@[j]@,
        decreases v.len() - i,
    {
        r.push(v[i].clone());
        i = i + 1;
    }
    assert(changes_view(r@) =~= changes_view(v@));
    r
}

pub(crate) fn clone_ids(v: &Vec<CommitId>) -> (r: Vec<CommitId>)
    ensures
        ids_view(r@) == ids_view(v@),
{
    let mut r: Vec<CommitId> = Vec::new();
    let mut i: usize = 0;
    while i < v.len()
        invariant
            0 <= i <= v.len(),
            r@.len() == i,
            forall|j: int| 0 <= j < i ==> #[trigger] r@[j]@ == v@[j]@,
        decreases v.len() - i,
    {
        r.push(CommitId::from_uuid(v[i].as_uuid()));
        i = i + 1;
    }
    assert(ids_view(r@) =~= ids_view(v@));
    r
}

impl Clone for FlowCommit {
    fn clone(&self) -> (r: Self)
        ensures
            r@ == self@,
    {
        FlowCommit {
            id: self.id,
            intention: self.intention.clone(),
            changes: clone_changes(&self.changes),
            tree_hash: self.tree_hash.clone(),
            parent_commits: clone_ids(&self.parent_commits),
            timestamp: self.timestamp,
            signature: match &self.signature {
                Some(s) => Some(s.clone()),
                None => None,
            },
        }
    }
}

/// The RFC 3339 text chrono gives for a time in whole seconds since the Unix epoch.
pub uninterp spec fn rfc3339_of(secs: i64) -> Seq<char>;

/// Relies on chrono::DateTime::from_timestamp and to_rfc3339: the RFC 3339
/// text of the time (empty where chrono cannot represent it).
#[verifier::external_body]
fn rfc3339_text(secs: i64) -> (r: String)
    ensures
        r@ == rfc3339_of(secs),
{
    chrono::DateTime::from_timestamp(secs, 0).map(|d| d.to_rfc3339()).unwrap_or_default()
}

/// The text a commit hash is taken over: the commit id, the intention id,
/// the tree hash, each parent id, and the timestamp.
pub open spec fn commit_hash_source(c: CommitView) -> Seq<char> {
    uuid_text(c.id) + uuid_text(c.intention.id) + c.tree_hash + parents_text(c.parent_commits)
        + rfc3339_of(c.timestamp)
}

pub open spec fn parents_text(p: Seq<u128>) -> Seq<char>
    decreases p.len(),
{
    if p.len() == 0 {
        seq![]
    } else {
        parents_text(p.drop_last()) + uuid_text(p.last())
    }
}

/// The paths of a list of changes, in order.
pub open spec fn change_paths(c: Seq<FileChangeView>) -> Seq<Seq<char>> {
    c.map_values(|x: FileChangeView| x.path)
}

impl FlowCommit {
    /// A new unsigned commit with a fresh id and the current time.
    pub fn new(
        intention: Intention,
        changes: Vec<FileChange>,
        tree_hash: crate::objects::Hash,
        parent_commits: Vec<CommitId>,
    ) -> (r: FlowCommit)
        ensures
            r.intention@ == intention@,
            changes_view(r.changes@) == changes_view(changes@),
            r.tree_hash@ == tree_hash@,
            ids_view(r.parent_commits@) == ids_view(parent_commits@),
            r.signature is None,
            r.id@ & UUID_VERSION_VARIANT_MASK == UUID_V4_BITS,
            r.timestamp >= 0,
    {
        FlowCommit::with_id(
            CommitId::new(),
            now_seconds(),
            intention,
            changes,
            tree_hash,
            parent_commits,
        )
    }

    /// A new unsigned commit with the given id and time.
    pub fn with_id(
        id: CommitId,
        timestamp: i64,
        intention: Intention,
        changes: Vec<FileChange>,
        tree_hash: crate::objects::Hash,
        parent_commits: Vec<CommitId>,
    ) -> (r: FlowCommit)
        ensures
            r.id == id,
            r.timestamp == timestamp,
            r.intention@ == intention@,
            changes_view(r.changes@) == changes_view(changes@),
            r.tree_hash@ == tree_hash@,
            ids_view(r.parent_commits@) == ids_view(parent_commits@),
            r.signature is None,
    {
        FlowCommit { id, intention, changes, tree_hash, parent_commits, timestamp, signature: None }
    }

    pub fn is_merge_commit(&self) -> (r: bool)
        ensures
            r == (self.parent_commits@.len() > 1),
    {
        self.parent_commits.len() > 1
    }

    pub fn is_root_commit(&self) -> (r: bool)
        ensures
            r == (self.parent_commits@.len() == 0),
    {
        self.parent_commits.len() == 0
    }

    /// The first eight characters of the commit id's text.
    pub fn short_id(&self) -> (r: String)
        ensures
            r@ == uuid_text(self.id@).subrange(0, 8),
    {
        self.id.short_id()
    }

    pub fn get_changed_files(&self) -> (r: Vec<String>)
        ensures
            crate::text::strings_view(r@) == change_paths(changes_view(self.changes@)),
    {
        let mut r: Vec<String> = Vec::new();
        let mut i: usize = 0;
        while i < self.changes.len()
            invariant
                0 <= i <= self.changes.len(),
                r@.len() == i,
                forall|j: int| 0 <= j < i ==> #[trigger] r@[j]@ == self.changes@[j].path@,
            decreases self.changes.len() - i,
        {
            r.push(self.changes[i].path.clone());
            i = i + 1;
        }
        assert(crate::text::strings_view(r@) =~= change_paths(changes_view(self.changes@)));
        r
    }

    pub fn files_count(&self) -> (r: usize)
        ensures
            r == self.changes@.len(),
    {
        self.changes.len()
    }

    pub fn has_file(&self, path: &str) -> (r: bool)
        ensures
            r == change_paths(changes_view(self.changes@)).contains(path@),
    {
        let mut i: usize = 0;
        while i < self.changes.len()
            invariant
                0 <= i <= self.changes.len(),
                forall|j: int| 0 <= j < i ==> #[trigger] self.changes@[j].path@ != path@,
            decreases self.changes.len() - i,
        {
            if str_eq(self.changes[i].path.deref(), path) {
                assert(change_paths(changes_view(self.changes@))[i as int] == path@);
                return true;
            }
            i = i + 1;
        }
        assert forall|j: int| 0 <= j < self.changes@.len() implies change_paths(
            changes_view(self.changes@),
        )[j] != path@ by {
            assert(self.changes@[j].path@ != path@);
        }
        false
    }

    /// Commit signing is not implemented: always the "not implemented" error.
    pub fn sign(&mut self, private_key: &str) -> (r: Result<(), FlowError>)
        ensures
            r matches Err(FlowError::NotImplemented(_)),
            final(self)@ == old(self)@,
    {
        Err(FlowError::NotImplemented("commit signing".to_owned()))
    }

    /// Signature checking is not implemented: always the "not implemented" error.
    pub fn verify_signature(&self) -> (r: Result<bool, FlowError>)
        ensures
            r matches Err(FlowError::NotImplemented(_)),
    {
        Err(FlowError::NotImplemented("signature verification".to_owned()))
    }

    /// The commit's identity record: its id, its intention's id, the tree
    /// hash, its parents and its time, as text.
    pub fn identity_text(&self) -> (r: String)
        ensures
            r@ == commit_hash_source(self@),
    {
        let mut text = self.id.to_string();
        let t = uuid_to_text(self.intention.id);
        push_text(&mut text, t.deref());
        push_text(&mut text, self.tree_hash.as_str());
        let mut i: usize = 0;
        while i < self.parent_commits.len()
            invariant
                0 <= i <= self.parent_commits.len(),
                text@ == uuid_text(self.id@) + uuid_text(self.intention.id) + self.tree_hash@
                    + parents_text(ids_view(self.parent_commits@).subrange(0, i as int)),
            decreases self.parent_commits.len() - i,
        {
            let p = self.parent_commits[i].to_string();
            push_text(&mut text, p.deref());
            proof {
                let s = ids_view(self.parent_commits@).subrange(0, i as int + 1);
                assert(s.drop_last() =~= ids_view(self.parent_commits@).subrange(0, i as int));
            }
            i = i + 1;
        }
        assert(ids_view(self.parent_commits@).subrange(0, self.parent_commits@.len() as int)
            =~= ids_view(self.parent_commits@));
        let stamp = rfc3339_text(self.timestamp);
        push_text(&mut text, stamp.deref());
        text
    }

    /// The hash over the commit's identity record.
    pub fn calculate_commit_hash(&self) -> (r: crate::objects::Hash)
        ensures
            r@ == hash_text(encode_utf8(commit_hash_source(self@))),
    {
        let text = self.identity_text();
        crate::objects::Hash::new(text.deref().as_bytes())
    }
}

} // verus!
