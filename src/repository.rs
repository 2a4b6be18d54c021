use std::ops::Deref;
use vstd::prelude::*;
use crate::commit::{changes_view, ids_view, CommitView, FlowCommit};
use crate::config::Config;
use crate::error::FlowError;
use crate::hash::hash_text;
use crate::index::{assoc_get, Index, IndexEntry, IndexEntryView};
use crate::intention::{
    opt_text, confidence_in_range, goal_is_blank, goal_too_long, Intention, IntentionView,
};
use crate::object_store::{
    blobs_addressed, blobs_after_store, blobs_stored_all, commit_ids_unique, commit_with_id, has_commit, ObjectStore,
    StoreView,
};
use crate::objects::{
    assoc_has, assoc_put, assoc_put_all, keys_unique, lemma_uuid_text_injective, lemma_uuid_text_chars,
    parse_uuid, uuid_parse_of, uuid_text, ChangeTypeView, CommitId, FileChange, FileChangeView,
    DEFAULT_FILE_MODE,
};
use crate::text::{
    is_white_space, push_text, str_eq, str_starts_with, str_trim, str_trim_start_matches,
    strip_repeated_prefix, trim_end_ws, trim_start_ws, trim_ws,
};
use vstd::utf8::*;

verus! {

/// The metadata directory inside a working directory.
pub const FLOWVERSION_DIR: &'static str = ".flowversion";

/// What a new repository's HEAD holds: a symbolic reference to the main stream.
pub const INITIAL_HEAD: &'static str = "ref: refs/streams/main\n";

/// The prefix that marks a symbolic HEAD.
pub const SYMBOLIC_PREFIX: &'static str = "ref: ";

/// Whether a HEAD text is a symbolic reference.
pub open spec fn is_symbolic(head: Seq<char>) -> bool {
    SYMBOLIC_PREFIX@.len() <= head.len() && head.subrange(0, SYMBOLIC_PREFIX@.len() as int)
        == SYMBOLIC_PREFIX@
}

/// The ref a symbolic HEAD points at.
pub open spec fn ref_target(head: Seq<char>) -> Seq<char> {
    trim_ws(strip_repeated_prefix(head, SYMBOLIC_PREFIX@))
}

/// The commit id a text names: the id whose hyphenated text it is, else
/// whatever the id parser accepts it as.
pub open spec fn commit_id_of_text(t: Seq<char>) -> Option<u128> {
    if exists|v: u128| uuid_text(v) == t {
        Some(choose|v: u128| uuid_text(v) == t)
    } else {
        uuid_parse_of(t)
    }
}

/// Where HEAD leads: `Ok(None)` before the first commit, `Ok(Some(id))` at a
/// commit, `Err(())` when the text found does not name an id.
pub open spec fn resolve_head_text(head: Seq<char>, refs: Seq<(Seq<char>, Seq<char>)>) -> Result<
    Option<u128>,
    (),
> {
    if is_symbolic(head) {
        match assoc_get(refs, ref_target(head)) {
            None => Ok(None),
            Some(t) => match commit_id_of_text(trim_ws(t)) {
                Some(v) => Ok(Some(v)),
                None => Err(()),
            },
        }
    } else {
        match commit_id_of_text(trim_ws(head)) {
            Some(v) => Ok(Some(v)),
            None => Err(()),
        }
    }
}

/// Where a HEAD file leads, if there is one; without a HEAD file there is no commit yet.
pub open spec fn resolve_head(head: Option<Seq<char>>, refs: Seq<(Seq<char>, Seq<char>)>) -> Result<
    Option<u128>,
    (),
> {
    match head {
        None => Ok(None),
        Some(h) => resolve_head_text(h, refs),
    }
}

/// HEAD and the refs after moving the head to `id`: a symbolic HEAD has its
/// ref rewritten, a direct one is rewritten itself.
pub open spec fn head_after_update(
    head: Option<Seq<char>>,
    refs: Seq<(Seq<char>, Seq<char>)>,
    id: u128,
) -> (Option<Seq<char>>, Seq<(Seq<char>, Seq<char>)>) {
    match head {
        None => (None, refs),
        Some(h) => if is_symbolic(h) {
            (head, assoc_put(refs, ref_target(h), uuid_text(id)))
        } else {
            (Some(uuid_text(id)), refs)
        },
    }
}

/// A repository as plain values.
pub struct RepoView {
    pub root_path: Seq<char>,
    pub config: Config,
    pub store: StoreView,
    pub index: Seq<(Seq<char>, IndexEntryView)>,
    /// The text of the HEAD file, if there is one.
    pub head: Option<Seq<char>>,
    pub refs: Seq<(Seq<char>, Seq<char>)>,
}

/// A repository: its configuration, object store and staging index, HEAD and
/// the refs under the metadata directory of a working directory.
#[derive(Debug)]
pub struct Repository {
    root_path: String,
    object_store: ObjectStore,
    index: Index,
    config: Config,
    head: Option<String>,
    refs: Vec<(String, String)>,
}

impl View for Repository {
    type V = RepoView;

    closed spec fn view(&self) -> RepoView {
        RepoView {
            root_path: self.root_path@,
            config: self.config,
            store: self.object_store@,
            index: self.index@,
            head: opt_text(self.head),
            refs: self.refs@.map_values(|e: (String, String)| (e.0@, e.1@)),
        }
    }
}

/// The id a text names, by the id parser.
pub fn parse_commit_id(t: &str) -> (r: Option<CommitId>)
    ensures
        match r {
            Some(c) => commit_id_of_text(t@) == Some(c@),
            None => commit_id_of_text(t@) is None,
        },
{
    let p = parse_uuid(t);
    proof {
        if exists|v: u128| uuid_text(v) == t@ {
            let v = choose|v: u128| uuid_text(v) == t@;
            assert(uuid_text(v) == t@);
        }
    }
    match p {
        Some(v) => Some(CommitId::from_uuid(v)),
        None => None,
    }
}

/// An identifier's text is its own id's text, with nothing to trim.
pub proof fn lemma_id_text_names_id(id: u128)
    ensures
        trim_ws(uuid_text(id)) == uuid_text(id),
        commit_id_of_text(uuid_text(id)) == Some(id),
{
    lemma_uuid_text_chars(id);
    let t = uuid_text(id);
    assert(!is_white_space(t[0]));
    assert(trim_start_ws(t) == t);
    assert(!is_white_space(t.last()));
    assert(trim_end_ws(t) == t);
    assert(exists|v: u128| uuid_text(v) == t);
    let v = choose|v: u128| uuid_text(v) == t;
    lemma_uuid_text_injective(v, id);
}

/// After the head moves to `id`, HEAD resolves to `id`.
pub proof fn lemma_head_update_resolves(head: Option<Seq<char>>, refs: Seq<(Seq<char>, Seq<char>)>, id: u128)
    requires
        head is Some,
        keys_unique(refs),
    ensures
        ({
            let (h, r) = head_after_update(head, refs, id);
            resolve_head(h, r) == Ok::<Option<u128>, ()>(Some(id)) && keys_unique(r)
        }),
{
    lemma_id_text_names_id(id);
    let (hd, r) = head_after_update(head, refs, id);
    let h0 = head->Some_0;
    if is_symbolic(h0) {
        let k = ref_target(h0);
        lemma_assoc_put_get(refs, k, uuid_text(id));
    } else {
        reveal_strlit("ref: ");
        lemma_uuid_text_chars(id);
        assert(uuid_text(id)[0] != 'r');
        let h = hd->Some_0;
        assert(h.subrange(0, 5)[0] == uuid_text(id)[0]);
        assert(!is_symbolic(h));
    }
}

/// Binding a key and then looking it up gives the bound value, and keys stay unique.
pub proof fn lemma_assoc_put_get<V>(s: Seq<(Seq<char>, V)>, k: Seq<char>, v: V)
    requires
        keys_unique(s),
    ensures
        assoc_get(assoc_put(s, k, v), k) == Some(v),
        keys_unique(assoc_put(s, k, v)),
{
    let t = assoc_put(s, k, v);
    if assoc_has(s, k) {
        let i = choose|i: int| 0 <= i < s.len() && s[i].0 == k;
        assert(t[i].0 == k);
        let j = choose|j: int| 0 <= j < t.len() && t[j].0 == k;
        assert(j == i);
    } else {
        assert(t[s.len() as int].0 == k);
        assert(assoc_has(t, k));
        let j = choose|j: int| 0 <= j < t.len() && t[j].0 == k;
        assert(j == s.len());
    }
}

/// The changes a commit records for a staging index: each staged path as
/// added, with its staged hash, in staging order.
pub open spec fn staged_changes(index: Seq<(Seq<char>, IndexEntryView)>) -> Seq<FileChangeView> {
    index.map_values(
        |e: (Seq<char>, IndexEntryView)|
            FileChangeView {
                path: e.0,
                change_type: ChangeTypeView::Added,
                content_hash: e.1.hash,
                previous_hash: None,
                mode: DEFAULT_FILE_MODE,
            },
    )
}

/// The bytes a tree hash is taken over: per change, its content hash then its path.
pub open spec fn tree_source(changes: Seq<FileChangeView>) -> Seq<u8>
    decreases changes.len(),
{
    if changes.len() == 0 {
        seq![]
    } else {
        tree_source(changes.drop_last()) + encode_utf8(changes.last().content_hash) + encode_utf8(
            changes.last().path,
        )
    }
}

/// The parents of a new commit: the commit HEAD resolves to, if any.
pub open spec fn parents_for(h: Result<Option<u128>, ()>) -> Seq<u128> {
    match h {
        Ok(Some(p)) => seq![p],
        _ => seq![],
    }
}

pub open spec fn intention_valid(i: IntentionView) -> bool {
    !goal_is_blank(i.goal) && !goal_too_long(i.goal) && confidence_in_range(i.confidence)
}

/// `new` is `old` after a successful commit `id` of `intention`: the commit
/// records the staged paths and HEAD's commit as parent, is stored, the head
/// moves to it, and the index is emptied.
pub open spec fn committed(old: RepoView, new: RepoView, id: u128, intention: IntentionView) -> bool {
    let c = new.store.commits.last();
    &&& old.head is Some
    &&& new.store.commits.len() > 0
    &&& new.store.commits == old.store.commits.push(c)
    &&& c.id == id
    &&& c.intention == intention
    &&& c.changes == staged_changes(old.index)
    &&& c.tree_hash == hash_text(tree_source(c.changes))
    &&& c.parent_commits == parents_for(resolve_head(old.head, old.refs))
    &&& c.signature is None
    &&& new.index.len() == 0
    &&& new.store.blobs == old.store.blobs
    &&& new.store.objects_path == old.store.objects_path
    &&& (new.head, new.refs) == head_after_update(old.head, old.refs, id)
    &&& new.config == old.config
    &&& new.root_path == old.root_path
}

/// `new` is `old` after staging `path` with `content`: the content is stored
/// under its hash unless already there, and the path is staged with that hash
/// and the content's size.
pub open spec fn staged(old: RepoView, new: RepoView, path: Seq<char>, content: Seq<u8>) -> bool {
    let h = hash_text(content);
    &&& new.store.blobs == blobs_after_store(old.store.blobs, h, content)
    &&& exists|t: u64|
        new.index == #[trigger] assoc_put(
            old.index,
            path,
            IndexEntryView { hash: h, size: content.len() as u64, modified_time: t },
        )
    &&& new.store.commits == old.store.commits
    &&& new.store.objects_path == old.store.objects_path
    &&& new.head == old.head
    &&& new.refs == old.refs
    &&& new.config == old.config
    &&& new.root_path == old.root_path
}

/// How a walk along first parents ends.
pub enum LogWalk {
    /// Reached a root commit, with the commits met, newest first.
    Complete(Seq<CommitView>),
    /// Met an id that no stored commit has.
    Missing(u128),
    /// Met a stored commit after as many steps as there are commits, so it goes round in a loop.
    TooLong,
}

pub open spec fn first_parent(c: CommitView) -> Option<u128> {
    if c.parent_commits.len() > 0 {
        Some(c.parent_commits[0])
    } else {
        None
    }
}

/// The walk from `at` along first parents, taking at most `fuel` steps.
pub open spec fn walk(cs: Seq<CommitView>, at: Option<u128>, fuel: nat) -> LogWalk
    decreases fuel,
{
    match at {
        None => LogWalk::Complete(seq![]),
        Some(id) => if !has_commit(cs, id) {
            LogWalk::Missing(id)
        } else if fuel == 0 {
            LogWalk::TooLong
        } else {
            let c = commit_with_id(cs, id);
            match walk(cs, first_parent(c), (fuel - 1) as nat) {
                LogWalk::Complete(s) => LogWalk::Complete(seq![c] + s),
                other => other,
            }
        },
    }
}

/// The history of a repository: the walk from HEAD's commit, at most one step per stored commit.
pub open spec fn log_of(v: RepoView) -> Result<LogWalk, ()> {
    match resolve_head(v.head, v.refs) {
        Err(()) => Err(()),
        Ok(start) => Ok(walk(v.store.commits, start, v.store.commits.len())),
    }
}

pub open spec fn prepend(p: Seq<CommitView>, w: LogWalk) -> LogWalk {
    match w {
        LogWalk::Complete(s) => LogWalk::Complete(p + s),
        other => other,
    }
}

pub open spec fn opt_id_view(o: Option<CommitId>) -> Option<u128> {
    match o {
        Some(c) => Some(c@),
        None => None,
    }
}

/// The paths of a staging index, in staging order.
pub open spec fn index_paths(index: Seq<(Seq<char>, IndexEntryView)>) -> Seq<Seq<char>> {
    index.map_values(|e: (Seq<char>, IndexEntryView)| e.0)
}

/// Staging paths one after another into an empty index stages each path
/// once: the staged paths are exactly the paths given, without repeats.
pub proof fn lemma_staging_collects_paths(steps: Seq<(Seq<char>, IndexEntryView)>)
    ensures
        keys_unique(assoc_put_all(steps)),
        index_paths(assoc_put_all(steps)).no_duplicates(),
        index_paths(assoc_put_all(steps)).to_set() == steps.map_values(
            |e: (Seq<char>, IndexEntryView)| e.0,
        ).to_set(),
    decreases steps.len(),
{
    if steps.len() == 0 {
        assert(index_paths(assoc_put_all(steps)).to_set() =~= Set::<Seq<char>>::empty());
        assert(steps.map_values(|e: (Seq<char>, IndexEntryView)| e.0).to_set() =~= Set::<
            Seq<char>,
        >::empty());
    } else {
        let prev = steps.drop_last();
        lemma_staging_collects_paths(prev);
        let s = assoc_put_all(prev);
        let (k, v) = steps.last();
        lemma_assoc_put_get(s, k, v);
        let t = assoc_put(s, k, v);
        let keys = steps.map_values(|e: (Seq<char>, IndexEntryView)| e.0);
        assert(keys =~= prev.map_values(|e: (Seq<char>, IndexEntryView)| e.0).push(k));
        prev.map_values(|e: (Seq<char>, IndexEntryView)| e.0).lemma_push_to_set_commute(k);
        if assoc_has(s, k) {
            let i = choose|i: int| 0 <= i < s.len() && s[i].0 == k;
            assert(index_paths(t) =~= index_paths(s));
            assert(index_paths(s).to_set().contains(k)) by {
                assert(index_paths(s)[i] == k);
            }
            assert(index_paths(s).to_set().insert(k) =~= index_paths(s).to_set());
        } else {
            assert(index_paths(t) =~= index_paths(s).push(k));
            index_paths(s).lemma_push_to_set_commute(k);
            assert forall|a: int, b: int| 0 <= a < b < index_paths(t).len() implies index_paths(
                t,
            )[a] != index_paths(t)[b] by {
                assert(t[a].0 != t[b].0);
            }
        }
    }
}

/// A new repository has no commit to lead to: HEAD is symbolic and its ref does not exist.
pub proof fn lemma_fresh_head_unborn(refs: Seq<(Seq<char>, Seq<char>)>)
    requires
        refs.len() == 0,
    ensures
        resolve_head(Some(INITIAL_HEAD@), refs) == Ok::<Option<u128>, ()>(None),
{
    reveal_strlit("ref: refs/streams/main\n");
    reveal_strlit("ref: ");
    assert(INITIAL_HEAD@.subrange(0, 5) =~= SYMBOLIC_PREFIX@);
    assert(!assoc_has(refs, ref_target(INITIAL_HEAD@)));
}

/// Committing drains the staging index: afterwards nothing is staged, HEAD
/// leads to the new commit, the commit records exactly the staged paths in
/// staging order, and it is the newest entry of the history.
pub proof fn lemma_commit_drains(old: RepoView, new: RepoView, id: u128, intention: IntentionView)
    requires
        committed(old, new, id, intention),
        keys_unique(old.refs),
        commit_ids_unique(new.store.commits),
    ensures
        new.index.len() == 0,
        resolve_head(new.head, new.refs) == Ok::<Option<u128>, ()>(Some(id)),
        has_commit(new.store.commits, id),
        commit_with_id(new.store.commits, id).changes.len() == old.index.len(),
        crate::commit::change_paths(commit_with_id(new.store.commits, id).changes) == index_paths(
            old.index,
        ),
        log_of(new) matches Ok(LogWalk::Complete(s)) ==> s.len() > 0 && s[0] == commit_with_id(
            new.store.commits,
            id,
        ),
{
    lemma_head_update_resolves(old.head, old.refs, id);
    lemma_newest_commit_found(new.store.commits);
    let c = commit_with_id(new.store.commits, id);
    assert(crate::commit::change_paths(c.changes) =~= index_paths(old.index));
}

proof fn lemma_newest_commit_found(cs: Seq<CommitView>)
    requires
        cs.len() > 0,
        commit_ids_unique(cs),
    ensures
        has_commit(cs, cs.last().id),
        commit_with_id(cs, cs.last().id) == cs.last(),
{
    assert(cs[cs.len() - 1].id == cs.last().id);
    let j = choose|j: int| 0 <= j < cs.len() && cs[j].id == cs.last().id;
    assert(j == cs.len() - 1);
}

/// Whether two states have the same history: HEAD, refs and stored commits.
pub open spec fn same_history(a: RepoView, b: RepoView) -> bool {
    a.head == b.head && a.refs == b.refs && a.store.commits == b.store.commits
}

/// Staging a file leaves the history as it was.
pub proof fn lemma_staging_keeps_history(old: RepoView, new: RepoView, path: Seq<char>, content: Seq<u8>)
    requires
        staged(old, new, path, content),
    ensures
        same_history(old, new),
{
}

/// Head and parent chaining: after commit C1, any staging that keeps the
/// history (as `add_file` does), then commit C2, C2's only parent is C1;
/// starting from a repository without commits, the history is then C2, C1.
pub proof fn lemma_head_chaining(
    r0: RepoView,
    r1: RepoView,
    r1s: RepoView,
    r2: RepoView,
    id1: u128,
    id2: u128,
    i1: IntentionView,
    i2: IntentionView,
)
    requires
        committed(r0, r1, id1, i1),
        same_history(r1, r1s),
        committed(r1s, r2, id2, i2),
        keys_unique(r0.refs),
        commit_ids_unique(r2.store.commits),
    ensures
        r2.store.commits.last().parent_commits == seq![id1],
        id2 != id1,
        resolve_head(r2.head, r2.refs) == Ok::<Option<u128>, ()>(Some(id2)),
        resolve_head(r0.head, r0.refs) == Ok::<Option<u128>, ()>(None) ==> log_of(r2) == Ok::<
            LogWalk,
            (),
        >(LogWalk::Complete(seq![r2.store.commits.last(), r1.store.commits.last()])),
{
    lemma_head_update_resolves(r0.head, r0.refs, id1);
    lemma_head_update_resolves(r1s.head, r1s.refs, id2);
    let cs = r2.store.commits;
    let c1 = r1.store.commits.last();
    let c2 = cs.last();
    let k = r1.store.commits.len() - 1;
    assert(cs[k] == c1);
    assert(cs[cs.len() - 1] == c2);
    assert(c1.id != c2.id);
    lemma_newest_commit_found(cs);
    if resolve_head(r0.head, r0.refs) == Ok::<Option<u128>, ()>(None) {
        assert(has_commit(cs, id1));
        let j = choose|j: int| 0 <= j < cs.len() && cs[j].id == id1;
        assert(j == k);
        assert(commit_with_id(cs, id1) == c1);
        assert(first_parent(c2) == Some(id1));
        assert(first_parent(c1) is None);
        assert(cs.len() >= 2);
        let n = cs.len();
        assert(walk(cs, None, (n - 2) as nat) == LogWalk::Complete(Seq::<CommitView>::empty()));
        assert(walk(cs, Some(id1), (n - 1) as nat) == LogWalk::Complete(
            seq![c1] + Seq::<CommitView>::empty(),
        ));
        assert(seq![c1] + Seq::<CommitView>::empty() =~= seq![c1]);
        assert(seq![c2] + seq![c1] =~= seq![c2, c1]);
    }
}

/// What `init` returns for a metadata directory: refused where a repository already is.
pub open spec fn init_result(dir: Option<Repository>) -> Result<(), FlowError> {
    match dir {
        Some(_) => Err(FlowError::RepoAlreadyExists),
        None => Ok(()),
    }
}

/// What `open` returns for a metadata directory: refused where there is no repository.
pub open spec fn open_result(dir: Option<Repository>) -> Result<Repository, FlowError> {
    match dir {
        Some(repo) => Ok(repo),
        None => Err(FlowError::RepoNotInitialized),
    }
}

/// The init guard: after `init` succeeds on a directory, a second `init`
/// there fails with already-exists and `open` succeeds; `open` on a
/// directory where `init` never ran fails with not-initialized.
pub proof fn lemma_init_guard(before: Option<Repository>, after: Option<Repository>)
    requires
        init_result(before) is Ok,
        after is Some,
    ensures
        init_result(after) == Err::<(), FlowError>(FlowError::RepoAlreadyExists),
        open_result(after) is Ok,
        open_result(before) == Err::<Repository, FlowError>(FlowError::RepoNotInitialized),
{
}

impl Repository {
    pub open spec fn wf(&self) -> bool {
        &&& keys_unique(self@.index)
        &&& keys_unique(self@.store.blobs)
        &&& commit_ids_unique(self@.store.commits)
        &&& self@.store.blob_sizes.len() == self@.store.blobs.len()
        &&& self@.store.commit_sizes.len() == self@.store.commits.len()
        &&& keys_unique(self@.refs)
        &&& blobs_addressed(self@.store.blobs)
    }

    pub closed spec fn index_spec(&self) -> Index {
        self.index
    }

    pub closed spec fn store_spec(&self) -> ObjectStore {
        self.object_store
    }

    /// The state `init` writes: configuration, empty index and store, HEAD at the main stream.
    pub open spec fn is_fresh(v: RepoView, root: Seq<char>, name: Seq<char>, ai_mode: Seq<char>, user: Seq<char>) -> bool {
        &&& v.root_path == root
        &&& v.config.name@ == name
        &&& v.config.ai_mode@ == ai_mode
        &&& v.config.user.name@ == user
        &&& v.config.version@ == crate::config::CONFIG_VERSION@
        &&& v.config.user.email is None
        &&& v.config.ai.enabled == (ai_mode != "local"@)
        &&& v.config.ai.provider@ == if ai_mode != "local"@ {
            ai_mode
        } else {
            "none"@
        }
        &&& v.config.ai.api_key is None
        &&& v.config.ai.model is None
        &&& v.store.objects_path == root + "/"@ + FLOWVERSION_DIR@ + "/objects"@
        &&& v.store.blobs.len() == 0
        &&& v.store.commits.len() == 0
        &&& v.index.len() == 0
        &&& v.head == Some(INITIAL_HEAD@)
        &&& v.refs.len() == 0
    }

    /// Creates a repository in a working directory whose metadata directory
    /// `dir` stands for; refused if one is already there.
    pub fn init(dir: &mut Option<Repository>, root_path: &str, name: &str, ai_mode: &str, user_name: &str) -> (r: Result<(), FlowError>)
        ensures
            r == init_result(*old(dir)),
            r is Err ==> *final(dir) == *old(dir),
            r is Ok ==> (*final(dir) matches Some(repo) && repo.wf() && Self::is_fresh(
                repo@,
                root_path@,
                name@,
                ai_mode@,
                user_name@,
            )),
    {
        if dir.is_some() {
            return Err(FlowError::RepoAlreadyExists);
        }
        let config = Config::new(name.to_owned(), ai_mode.to_owned(), user_name.to_owned());
        let objects_path = Self::objects_path_of(root_path);
        let repo = Repository {
            root_path: root_path.to_owned(),
            object_store: ObjectStore::new(objects_path.deref()),
            index: Index::new(),
            config,
            head: Some(INITIAL_HEAD.to_owned()),
            refs: Vec::new(),
        };
        assert(repo@.refs =~= Seq::<(Seq<char>, Seq<char>)>::empty());
        assert(repo@.refs =~= assoc_put_all(Seq::<(Seq<char>, Seq<char>)>::empty()));
        *dir = Some(repo);
        Ok(())
    }

    pub fn is_initialized(dir: &Option<Repository>) -> (r: bool)
        ensures
            r == dir is Some,
    {
        dir.is_some()
    }

    /// Opens the repository of a working directory; refused if there is none.
    pub fn open(dir: Option<Repository>) -> (r: Result<Repository, FlowError>)
        ensures
            r == open_result(dir),
    {
        match dir {
            Some(repo) => Ok(repo),
            None => Err(FlowError::RepoNotInitialized),
        }
    }

    pub fn get_config(&self) -> (r: &Config)
        ensures
            *r == self@.config,
    {
        &self.config
    }

    pub fn root_path(&self) -> (r: &str)
        ensures
            r@ == self@.root_path,
    {
        self.root_path.deref()
    }

    /// The text of the HEAD file, if there is one.
    pub fn head_text(&self) -> (r: Option<&str>)
        ensures
            match r {
                Some(t) => self@.head == Some(t@),
                None => self@.head is None,
            },
    {
        match &self.head {
            Some(h) => Some(h.deref()),
            None => None,
        }
    }

    pub fn index(&self) -> (r: &Index)
        ensures
            r@ == self@.index,
    {
        &self.index
    }

    pub fn object_store(&self) -> (r: &ObjectStore)
        ensures
            r@ == self@.store,
    {
        &self.object_store
    }

    /// Records the file size of the blob stored under `hash`.
    pub fn record_blob_size(&mut self, hash: &crate::objects::Hash, size: u64)
        requires
            old(self).wf(),
        ensures
            final(self).wf(),
            final(self)@.root_path == old(self)@.root_path,
            final(self)@.config == old(self)@.config,
            final(self)@.index == old(self)@.index,
            final(self)@.head == old(self)@.head,
            final(self)@.refs == old(self)@.refs,
            final(self)@.store.objects_path == old(self)@.store.objects_path,
            final(self)@.store.blobs == old(self)@.store.blobs,
            final(self)@.store.commits == old(self)@.store.commits,
            final(self)@.store.commit_sizes == old(self)@.store.commit_sizes,
            final(self)@.store.blob_sizes == if assoc_has(old(self)@.store.blobs, hash@) {
                old(self)@.store.blob_sizes.update(
                    crate::object_store::blob_position(old(self)@.store.blobs, hash@),
                    size,
                )
            } else {
                old(self)@.store.blob_sizes
            },
    {
        self.object_store.record_blob_size(hash, size);
    }

    /// Records the file size of the commit with this id.
    pub fn record_commit_size(&mut self, id: &CommitId, size: u64)
        requires
            old(self).wf(),
        ensures
            final(self).wf(),
            final(self)@.root_path == old(self)@.root_path,
            final(self)@.config == old(self)@.config,
            final(self)@.index == old(self)@.index,
            final(self)@.head == old(self)@.head,
            final(self)@.refs == old(self)@.refs,
            final(self)@.store.objects_path == old(self)@.store.objects_path,
            final(self)@.store.blobs == old(self)@.store.blobs,
            final(self)@.store.commits == old(self)@.store.commits,
            final(self)@.store.blob_sizes == old(self)@.store.blob_sizes,
            final(self)@.store.commit_sizes == if has_commit(old(self)@.store.commits, id@) {
                old(self)@.store.commit_sizes.update(
                    crate::object_store::commit_position(old(self)@.store.commits, id@),
                    size,
                )
            } else {
                old(self)@.store.commit_sizes
            },
    {
        self.object_store.record_commit_size(id, size);
    }

    /// Each ref file, relative to the metadata directory, with its text.
    pub fn refs(&self) -> (r: &Vec<(String, String)>)
        ensures
            r@.map_values(|e: (String, String)| (e.0@, e.1@)) == self@.refs,
    {
        &self.refs
    }

    fn find_ref(&self, path: &str) -> (r: Option<usize>)
        requires
            keys_unique(self@.refs),
        ensures
            r matches Some(i) ==> i < self@.refs.len() && self@.refs[i as int].0 == path@
                && assoc_get(self@.refs, path@) == Some(self@.refs[i as int].1),
            r is None ==> assoc_get(self@.refs, path@) is None,
    {
        let mut i: usize = 0;
        while i < self.refs.len()
            invariant
                0 <= i <= self.refs.len(),
                keys_unique(self@.refs),
                forall|j: int| 0 <= j < i ==> self@.refs[j].0 != path@,
            decreases self.refs.len() - i,
        {
            if str_eq(self.refs[i].0.deref(), path) {
                assert(self@.refs[i as int].0 == path@);
                let ghost c = choose|j: int| 0 <= j < self@.refs.len() && self@.refs[j].0 == path@;
                assert(c == i);
                return Some(i);
            }
            i = i + 1;
        }
        None
    }

    /// The commit HEAD leads to, following a symbolic reference to its ref;
    /// `None` before the first commit.
    pub fn get_head_commit_id(&self) -> (r: Result<Option<CommitId>, FlowError>)
        requires
            self.wf(),
        ensures
            match resolve_head(self@.head, self@.refs) {
                Ok(None) => r matches Ok(None),
                Ok(Some(v)) => r matches Ok(Some(c)) && c@ == v,
                Err(_) => r matches Err(FlowError::InvalidCommitId(_)),
            },
    {
        proof {
            reveal_strlit("ref: ");
        }
        let head = match &self.head {
            Some(h) => h,
            None => {
                return Ok(None);
            },
        };
        if str_starts_with(head.deref(), SYMBOLIC_PREFIX) {
            let stripped = str_trim_start_matches(head.deref(), SYMBOLIC_PREFIX);
            let target = str_trim(stripped);
            match self.find_ref(target) {
                Some(i) => {
                    let text = &self.refs[i].1;
                    match parse_commit_id(str_trim(text.deref())) {
                        Some(c) => Ok(Some(c)),
                        None => Err(FlowError::InvalidCommitId(text.clone())),
                    }
                },
                None => Ok(None),
            }
        } else {
            match parse_commit_id(str_trim(head.deref())) {
                Some(c) => Ok(Some(c)),
                None => Err(FlowError::InvalidCommitId(head.clone())),
            }
        }
    }

    /// Moves the head to `id`: through its ref when HEAD is symbolic, else in HEAD itself.
    fn update_head(&mut self, id: &CommitId)
        requires
            old(self).wf(),
            old(self)@.head is Some,
        ensures
            final(self).wf(),
            (final(self)@.head, final(self)@.refs) == head_after_update(old(self)@.head, old(self)@.refs, id@),
            final(self)@.root_path == old(self)@.root_path,
            final(self)@.config == old(self)@.config,
            final(self)@.store == old(self)@.store,
            final(self)@.index == old(self)@.index,
            final(self).index_spec() == old(self).index_spec(),
            final(self).store_spec() == old(self).store_spec(),
    {
        proof {
            reveal_strlit("ref: ");
            lemma_assoc_put_get(old(self)@.refs, ref_target(old(self)@.head->Some_0), uuid_text(id@));
        }
        let text = id.to_string();
        let target: Option<String> = match &self.head {
            Some(h) => if str_starts_with(h.deref(), SYMBOLIC_PREFIX) {
                let stripped = str_trim_start_matches(h.deref(), SYMBOLIC_PREFIX);
                Some(str_trim(stripped).to_owned())
            } else {
                None
            },
            None => None,
        };
        match target {
            Some(target) => {
                let ghost k = target@;
                match self.find_ref(target.deref()) {
                    Some(i) => {
                        self.refs.set(i, (target, text));
                    },
                    None => {
                        self.refs.push((target, text));
                    },
                }
                assert(self@.refs =~= assoc_put(old(self)@.refs, k, uuid_text(id@)));
            },
            None => {
                self.head = Some(text);
            },
        }
    }

    fn objects_path_of(root_path: &str) -> (r: String)
        ensures
            r@ == root_path@ + "/"@ + FLOWVERSION_DIR@ + "/objects"@,
    {
        let mut objects_path = root_path.to_owned();
        push_text(&mut objects_path, "/");
        push_text(&mut objects_path, FLOWVERSION_DIR);
        push_text(&mut objects_path, "/objects");
        objects_path
    }

    /// A repository assembled from what its metadata directory holds: each
    /// blob is stored under the hash of its content, a later index entry or
    /// ref for a path replaces an earlier one; fails if two commits share an id.
    pub fn from_parts(
        root_path: String,
        config: Config,
        index_entries: Vec<(String, IndexEntry)>,
        blobs: Vec<Vec<u8>>,
        commits: Vec<FlowCommit>,
        head: Option<String>,
        refs: Vec<(String, String)>,
    ) -> (r: Result<Repository, FlowError>)
        ensures
            r is Ok <==> commit_ids_unique(commits@.map_values(|c: FlowCommit| c@)),
            r matches Err(e) ==> e is ObjectAlreadyExists,
            r matches Ok(repo) ==> repo.wf() && repo@.root_path == root_path@ && repo@.head
                == opt_text(head) && repo@.config == config && repo@.store.commits == commits@.map_values(
                |c: FlowCommit| c@,
            ) && repo@.store.blobs == blobs_stored_all(blobs@.map_values(|b: Vec<u8>| b@))
                && repo@.store.objects_path == root_path@ + "/"@ + FLOWVERSION_DIR@ + "/objects"@
                && repo@.index == assoc_put_all(
                index_entries@.map_values(|e: (String, IndexEntry)| (e.0@, e.1@)),
            ) && repo@.refs == assoc_put_all(refs@.map_values(|e: (String, String)| (e.0@, e.1@))),
    {
        let objects_path = Self::objects_path_of(root_path.deref());
        let mut store = ObjectStore::new(objects_path.deref());
        let ghost bviews = blobs@.map_values(|b: Vec<u8>| b@);
        let mut i: usize = 0;
        while i < blobs.len()
            invariant
                0 <= i <= blobs.len(),
                bviews == blobs@.map_values(|b: Vec<u8>| b@),
                store.wf(),
                blobs_addressed(store@.blobs),
                store@.commits.len() == 0,
                store@.objects_path == objects_path@,
                store@.blobs == blobs_stored_all(bviews.subrange(0, i as int)),
            decreases blobs.len() - i,
        {
            let content = blobs[i].clone();
            proof {
                assert(content@ =~= bviews[i as int]);
                assert(bviews.subrange(0, i as int + 1).drop_last() =~= bviews.subrange(0, i as int));
            }
            let hash = crate::objects::Hash::new(content.as_slice());
            let _ = store.store_blob(&hash, content);
            i = i + 1;
        }
        assert(bviews.subrange(0, blobs@.len() as int) =~= bviews);
        let ghost views = commits@.map_values(|c: FlowCommit| c@);
        let mut j: usize = 0;
        while j < commits.len()
            invariant
                0 <= j <= commits.len(),
                store.wf(),
                blobs_addressed(store@.blobs),
                views == commits@.map_values(|c: FlowCommit| c@),
                store@.commits == views.subrange(0, j as int),
                store@.blobs == blobs_stored_all(bviews),
                store@.objects_path == objects_path@,
            decreases commits.len() - j,
        {
            match store.store_commit(&commits[j]) {
                Ok(()) => {},
                Err(e) => {
                    proof {
                        let k = choose|k: int|
                            0 <= k < store@.commits.len() && store@.commits[k].id == views[j as int].id;
                        assert(views[k] == store@.commits[k]);
                        assert(!commit_ids_unique(views));
                    }
                    return Err(e);
                },
            }
            assert(store@.commits =~= views.subrange(0, j as int + 1));
            j = j + 1;
        }
        assert(views.subrange(0, commits@.len() as int) =~= views);
        let mut repo = Repository {
            root_path,
            object_store: store,
            index: Index::from_entries(index_entries),
            config,
            head,
            refs: Vec::new(),
        };
        assert(repo@.refs =~= Seq::<(Seq<char>, Seq<char>)>::empty());
        let ghost rviews = refs@.map_values(|e: (String, String)| (e.0@, e.1@));
        let ghost iviews = index_entries@.map_values(|e: (String, IndexEntry)| (e.0@, e.1@));
        let mut k: usize = 0;
        while k < refs.len()
            invariant
                0 <= k <= refs.len(),
                rviews == refs@.map_values(|e: (String, String)| (e.0@, e.1@)),
                repo.wf(),
                repo@.root_path == root_path@,
                repo@.head == opt_text(head),
                repo@.config == config,
                repo@.store.commits == views,
                repo@.store.blobs == blobs_stored_all(bviews),
                repo@.store.objects_path == objects_path@,
                repo@.index == assoc_put_all(iviews),
                repo@.refs == assoc_put_all(rviews.subrange(0, k as int)),
            decreases refs.len() - k,
        {
            let (path, text) = &refs[k];
            repo.set_ref(path.clone(), text.clone());
            proof {
                assert(rviews.subrange(0, k as int + 1).drop_last() =~= rviews.subrange(0, k as int));
                assert(rviews[k as int] == (path@, text@));
            }
            k = k + 1;
        }
        assert(rviews.subrange(0, refs@.len() as int) =~= rviews);
        Ok(repo)
    }

    /// Binds a ref path to its text.
    fn set_ref(&mut self, path: String, text: String)
        requires
            old(self).wf(),
        ensures
            final(self).wf(),
            final(self)@.refs == assoc_put(old(self)@.refs, path@, text@),
            final(self)@.root_path == old(self)@.root_path,
            final(self)@.head == old(self)@.head,
            final(self)@.config == old(self)@.config,
            final(self)@.store == old(self)@.store,
            final(self)@.index == old(self)@.index,
    {
        proof {
            lemma_assoc_put_get(old(self)@.refs, path@, text@);
        }
        let ghost k = path@;
        match self.find_ref(path.deref()) {
            Some(i) => {
                self.refs.set(i, (path, text));
            },
            None => {
                self.refs.push((path, text));
            },
        }
        assert(self@.refs =~= assoc_put(old(self)@.refs, k, text@));
    }

    /// Stages a file of the working directory given its content (`None` when
    /// the file is absent): stores the content as a blob and records it in the index.
    pub fn add_file(&mut self, file_path: &str, content: Option<Vec<u8>>) -> (r: Result<
        (),
        FlowError,
    >)
        requires
            old(self).wf(),
        ensures
            final(self).wf(),
            content is None ==> (r matches Err(FlowError::FileNotFound(t)) && t@ == file_path@),
            content is None ==> final(self)@ == old(self)@,
            content matches Some(c) ==> r is Ok && staged(old(self)@, final(self)@, file_path@, c@),
    {
        let content = match content {
            Some(c) => c,
            None => {
                return Err(FlowError::FileNotFound(file_path.to_owned()));
            },
        };
        let ghost bytes = content@;
        let hash = crate::objects::Hash::new(content.as_slice());
        let size = content.len() as u64;
        let _ = self.object_store.store_blob(&hash, content);
        let _ = self.index.add_file(file_path.to_owned(), hash, size);
        assert(blobs_addressed(self@.store.blobs));
        Ok(())
    }

    /// The hash over the changes: per change, its content hash then its path.
    fn create_tree_from_changes(changes: &Vec<FileChange>) -> (r: crate::objects::Hash)
        ensures
            r@ == hash_text(tree_source(changes_view(changes@))),
    {
        let mut data: Vec<u8> = Vec::new();
        let mut i: usize = 0;
        while i < changes.len()
            invariant
                0 <= i <= changes.len(),
                data@ == tree_source(changes_view(changes@).subrange(0, i as int)),
            decreases changes.len() - i,
        {
            data.extend_from_slice(changes[i].content_hash.as_str().as_bytes());
            data.extend_from_slice(changes[i].path.deref().as_bytes());
            proof {
                let s = changes_view(changes@).subrange(0, i as int + 1);
                assert(s.drop_last() =~= changes_view(changes@).subrange(0, i as int));
            }
            i = i + 1;
        }
        assert(changes_view(changes@).subrange(0, changes@.len() as int) =~= changes_view(
            changes@,
        ));
        crate::objects::Hash::new(data.as_slice())
    }

    /// HEAD's commit as a parent list: one id, or none before the first commit.
    fn get_current_head_commits(&self) -> (r: Result<Vec<CommitId>, FlowError>)
        requires
            self.wf(),
        ensures
            resolve_head(self@.head, self@.refs) is Err ==> r matches Err(
                FlowError::InvalidCommitId(_),
            ),
            resolve_head(self@.head, self@.refs) is Ok ==> (r matches Ok(v) && ids_view(v@)
                == parents_for(resolve_head(self@.head, self@.refs))),
    {
        match self.get_head_commit_id() {
            Ok(Some(id)) => {
                let mut v: Vec<CommitId> = Vec::new();
                v.push(id);
                assert(ids_view(v@) =~= seq![id@]);
                Ok(v)
            },
            Ok(None) => {
                let v: Vec<CommitId> = Vec::new();
                assert(ids_view(v@) =~= Seq::<u128>::empty());
                Ok(v)
            },
            Err(e) => Err(e),
        }
    }

    /// Commits the staged files with a rationale, under a fresh id and the
    /// current time: the commit records every staged path as added, its parent
    /// is HEAD's commit, and afterwards HEAD leads to it and nothing is staged.
    pub fn commit_with_intention(&mut self, intention: Intention) -> (r: Result<CommitId, FlowError>)
        requires
            old(self).wf(),
        ensures
            final(self).wf(),
            !intention_valid(intention@) ==> (r matches Err(e) && (e is InvalidIntention
                || e is InvalidConfidenceScore)),
            !intention_valid(intention@) ==> final(self)@ == old(self)@,
            intention_valid(intention@) && old(self)@.index.len() == 0 ==> (r matches Err(
                FlowError::InvalidRepoState(_),
            ) && final(self)@ == old(self)@),
            intention_valid(intention@) && old(self)@.index.len() > 0 && old(self)@.head is None
                ==> (r matches Err(FlowError::IoError(_)) && final(self)@ == old(self)@),
            intention_valid(intention@) && old(self)@.index.len() > 0 && resolve_head(
                old(self)@.head,
                old(self)@.refs,
            ) is Err ==> (r matches Err(FlowError::InvalidCommitId(_)) && final(self)@ == old(
                self,
            )@),
            intention_valid(intention@) && old(self)@.index.len() > 0 && old(self)@.head is Some
                && resolve_head(old(self)@.head, old(self)@.refs) is Ok ==> (r is Ok || r matches Err(
                FlowError::ObjectAlreadyExists(_),
            )),
            r matches Err(FlowError::ObjectAlreadyExists(_)) ==> final(self)@ == old(self)@,
            r matches Err(FlowError::ObjectAlreadyExists(t)) ==> exists|v: u128|
                has_commit(old(self)@.store.commits, v) && t@ == uuid_text(v),
            r matches Ok(id) ==> committed(old(self)@, final(self)@, id@, intention@),
            r matches Ok(id) ==> final(self)@.store.commits.last().timestamp >= 0,
            r matches Ok(id) ==> resolve_head(final(self)@.head, final(self)@.refs) == Ok::<
                Option<u128>,
                (),
            >(Some(id@)),
    {
        let id = CommitId::new();
        let timestamp = crate::intention::now_seconds();
        self.commit_with_id(intention, id, timestamp)
    }

    /// Commits the staged files with a rationale under the given id and time;
    /// where nothing before the store stops it, it succeeds exactly when no
    /// stored commit has that id.
    pub fn commit_with_id(&mut self, intention: Intention, id: CommitId, timestamp: i64) -> (r: Result<
        CommitId,
        FlowError,
    >)
        requires
            old(self).wf(),
        ensures
            final(self).wf(),
            !intention_valid(intention@) ==> (r matches Err(e) && (e is InvalidIntention
                || e is InvalidConfidenceScore)),
            !intention_valid(intention@) ==> final(self)@ == old(self)@,
            intention_valid(intention@) && old(self)@.index.len() == 0 ==> (r matches Err(
                FlowError::InvalidRepoState(_),
            ) && final(self)@ == old(self)@),
            intention_valid(intention@) && old(self)@.index.len() > 0 && old(self)@.head is None
                ==> (r matches Err(FlowError::IoError(_)) && final(self)@ == old(self)@),
            intention_valid(intention@) && old(self)@.index.len() > 0 && resolve_head(
                old(self)@.head,
                old(self)@.refs,
            ) is Err ==> (r matches Err(FlowError::InvalidCommitId(_)) && final(self)@ == old(
                self,
            )@),
            intention_valid(intention@) && old(self)@.index.len() > 0 && old(self)@.head is Some
                && resolve_head(old(self)@.head, old(self)@.refs) is Ok ==> (r is Ok <==> !has_commit(
                old(self)@.store.commits,
                id@,
            )),
            intention_valid(intention@) && old(self)@.index.len() > 0 && old(self)@.head is Some
                && resolve_head(old(self)@.head, old(self)@.refs) is Ok ==> (r is Ok || r matches Err(
                FlowError::ObjectAlreadyExists(_),
            )),
            r matches Err(FlowError::ObjectAlreadyExists(t)) ==> has_commit(
                old(self)@.store.commits,
                id@,
            ) && t@ == uuid_text(id@) && final(self)@ == old(self)@,
            r matches Ok(x) ==> x == id && committed(old(self)@, final(self)@, id@, intention@)
                && final(self)@.store.commits.last().timestamp == timestamp,
            r matches Ok(x) ==> resolve_head(final(self)@.head, final(self)@.refs) == Ok::<
                Option<u128>,
                (),
            >(Some(id@)),
    {
        match intention.validate() {
            Ok(()) => {},
            Err(e) => {
                return Err(e);
            },
        }
        let staged = match self.index.get_staged_files() {
            Ok(v) => v,
            Err(e) => {
                return Err(e);
            },
        };
        if staged.len() == 0 {
            assert(self@.index.len() == 0);
            return Err(FlowError::InvalidRepoState("No files staged for commit".to_owned()));
        }
        if self.head.is_none() {
            return Err(FlowError::IoError("HEAD file is missing".to_owned()));
        }
        let mut changes: Vec<FileChange> = Vec::new();
        let mut i: usize = 0;
        while i < staged.len()
            invariant
                0 <= i <= staged.len(),
                staged@.map_values(|e: (String, IndexEntry)| (e.0@, e.1@)) == self@.index,
                changes_view(changes@) == staged_changes(self@.index).subrange(0, i as int),
            decreases staged.len() - i,
        {
            let change = FileChange::new_added(staged[i].0.clone(), staged[i].1.hash.clone());
            let ghost prev = changes@;
            changes.push(change);
            proof {
                assert(self@.index[i as int] == (staged@[i as int].0@, staged@[i as int].1@));
                assert(changes@ == prev.push(change));
                assert(change@ == staged_changes(self@.index)[i as int]);
                assert(changes_view(changes@) =~= changes_view(prev).push(change@));
                assert(changes_view(changes@) =~= staged_changes(self@.index).subrange(
                    0,
                    i as int + 1,
                ));
            }
            i = i + 1;
        }
        assert(staged_changes(self@.index).subrange(0, staged@.len() as int) =~= staged_changes(
            self@.index,
        ));
        let tree_hash = Self::create_tree_from_changes(&changes);
        let parents = match self.get_current_head_commits() {
            Ok(p) => p,
            Err(e) => {
                return Err(e);
            },
        };
        let ghost iv = intention@;
        let commit = FlowCommit::with_id(id, timestamp, intention, changes, tree_hash, parents);
        match self.object_store.store_commit(&commit) {
            Ok(()) => {},
            Err(e) => {
                return Err(e);
            },
        }
        proof {
            lemma_head_update_resolves(self@.head, self@.refs, id@);
        }
        self.update_head(&id);
        let _ = self.index.clear();
        assert(self@.store.commits.last() == commit@);
        Ok(id)
    }

    /// The history from HEAD along first parents, newest first; empty before the first commit.
    pub fn get_log(&self) -> (r: Result<Vec<FlowCommit>, FlowError>)
        requires
            self.wf(),
        ensures
            match log_of(self@) {
                Err(()) => r matches Err(FlowError::InvalidCommitId(_)),
                Ok(LogWalk::Complete(s)) => r matches Ok(v) && v@.map_values(|c: FlowCommit| c@)
                    == s,
                Ok(LogWalk::Missing(id)) => r matches Err(FlowError::ObjectNotFound(t)) && t@
                    == uuid_text(id),
                Ok(LogWalk::TooLong) => r matches Err(FlowError::InvalidRepoState(_)),
            },
    {
        let start = match self.get_head_commit_id() {
            Ok(s) => s,
            Err(e) => {
                return Err(e);
            },
        };
        let ghost cs = self@.store.commits;
        let ghost n = cs.len();
        assert(log_of(self@) == Ok::<LogWalk, ()>(walk(cs, opt_id_view(start), n)));
        let mut commits: Vec<FlowCommit> = Vec::new();
        let mut current = start;
        let mut fuel: usize = self.object_store.commit_count();
        while current.is_some()
            invariant
                self.wf(),
                cs == self@.store.commits,
                n == cs.len(),
                log_of(self@) == Ok::<LogWalk, ()>(walk(cs, opt_id_view(start), n)),
                walk(cs, opt_id_view(start), n) == prepend(
                    commits@.map_values(|c: FlowCommit| c@),
                    walk(cs, opt_id_view(current), fuel as nat),
                ),
            decreases fuel,
        {
            let id = current.unwrap();
            let c = match self.object_store.load_commit(&id) {
                Ok(c) => c,
                Err(e) => {
                    return Err(e);
                },
            };
            if fuel == 0 {
                return Err(FlowError::InvalidRepoState("Commit history loops".to_owned()));
            }
            let next = if c.parent_commits.len() > 0 {
                Some(c.parent_commits[0])
            } else {
                None
            };
            let ghost before = commits@.map_values(|c: FlowCommit| c@);
            assert(opt_id_view(next) == first_parent(c@));
            commits.push(c);
            proof {
                assert(commits@.map_values(|c: FlowCommit| c@) =~= before.push(c@));
                match walk(cs, opt_id_view(next), (fuel - 1) as nat) {
                    LogWalk::Complete(s) => {
                        assert(before + (seq![c@] + s) =~= before.push(c@) + s);
                    },
                    _ => {},
                }
            }
            current = next;
            fuel = fuel - 1;
        }
        assert(commits@.map_values(|c: FlowCommit| c@) + Seq::<CommitView>::empty()
            =~= commits@.map_values(|c: FlowCommit| c@));
        Ok(commits)
    }
}

} // verus!
