use std::ops::Deref;
use vstd::prelude::*;
use vstd::string::StrSliceExecFns;
use crate::hash::{decimal_bytes, decimal_text, digest_hex, hash_text, hex_digit, lemma_hex_digit_injective};
use crate::text::is_white_space;
use crate::text::{str_eq, string_from_utf8, string_into_bytes};
use vstd::utf8::*;

verus! {

/// A content hash, held as its lowercase hex text.
#[derive(Debug, PartialEq, Eq, Hash)]
pub struct Hash(String);

impl View for Hash {
    type V = Seq<char>;

    closed spec fn view(&self) -> Seq<char> {
        self.0@
    }
}

impl Clone for Hash {
    fn clone(&self) -> (r: Self)
        ensures
            r@ == self@,
    {
        Hash(self.0.clone())
    }
}

impl Hash {
    /// The hash of some content.
    pub fn new(data: &[u8]) -> (r: Hash)
        ensures
            r@ == hash_text(data@),
            r@.len() == 64,
    {
        Hash(digest_hex(data))
    }

    pub fn from_string(s: String) -> (r: Hash)
        ensures
            r@ == s@,
    {
        Hash(s)
    }

    pub fn as_str(&self) -> (r: &str)
        ensures
            r@ == self@,
    {
        self.0.deref()
    }

    pub fn to_string(&self) -> (r: String)
        ensures
            r@ == self@,
    {
        self.0.clone()
    }

    /// Whether two hashes have the same text.
    pub fn same_as(&self, other: &Hash) -> (r: bool)
        ensures
            r == (self@ == other@),
    {
        str_eq(self.0.deref(), other.0.deref())
    }
}

impl From<String> for Hash {
    fn from(s: String) -> (r: Hash) {
        Hash(s)
    }
}

impl vstd::std_specs::convert::FromSpecImpl<String> for Hash {
    open spec fn obeys_from_spec() -> bool {
        true
    }

    closed spec fn from_spec(s: String) -> Hash {
        Hash(s)
    }
}

/// The hex digit at position `k` (0 for the most significant) of a 128-bit value.
pub open spec fn uuid_nibble(v: u128, k: int) -> int {
    ((v >> ((124 - 4 * k) as u128)) & 15u128) as int
}

/// How many hyphens precede position `i` of a hyphenated identifier.
pub open spec fn uuid_hyphens_before(i: int) -> int {
    if i < 9 {
        0
    } else if i < 14 {
        1
    } else if i < 19 {
        2
    } else if i < 24 {
        3
    } else {
        4
    }
}

/// The hyphenated lowercase text of a 128-bit identifier (8-4-4-4-12 digits).
pub open spec fn uuid_text(v: u128) -> Seq<char> {
    Seq::new(
        36,
        |i: int|
            if i == 8 || i == 13 || i == 18 || i == 23 {
                '-'
            } else {
                hex_digit(uuid_nibble(v, i - uuid_hyphens_before(i)))
            },
    )
}

/// The bits that carry the version and variant of an identifier.
pub const UUID_VERSION_VARIANT_MASK: u128 = 0x0000_0000_0000_f000_c000_0000_0000_0000;

/// Version 4 (random) with the RFC 4122 variant.
pub const UUID_V4_BITS: u128 = 0x0000_0000_0000_4000_8000_0000_0000_0000;

/// Relies on uuid::Uuid::new_v4 (with as_u128): a random value whose version
/// and variant bits are those of a version-4 identifier.
#[verifier::external_body]
pub(crate) fn random_uuid() -> (r: u128)
    ensures
        r & UUID_VERSION_VARIANT_MASK == UUID_V4_BITS,
{
    uuid::Uuid::new_v4().as_u128()
}

/// Relies on uuid::Uuid's Display (with from_u128): the hyphenated lowercase
/// hex text of the value, most significant digit first.
#[verifier::external_body]
pub(crate) fn uuid_to_text(v: u128) -> (r: String)
    ensures
        r@ == uuid_text(v),
{
    uuid::Uuid::from_u128(v).to_string()
}

/// What uuid::Uuid::parse_str makes of a text.
pub uninterp spec fn uuid_parse_of(s: Seq<char>) -> Option<u128>;

/// Relies on uuid::Uuid::parse_str (with as_u128): the value a text names, if
/// it is one of the accepted forms; the hyphenated text of a value parses back to it.
#[verifier::external_body]
pub(crate) fn parse_uuid(s: &str) -> (r: Option<u128>)
    ensures
        r == uuid_parse_of(s@),
        forall|v: u128| #[trigger] uuid_text(v) == s@ ==> r == Some(v),
{
    uuid::Uuid::parse_str(s).ok().map(|u| u.as_u128())
}

/// The identifier of a commit, a 128-bit value.
#[derive(Debug, Clone, Copy, PartialEq, Eq, Hash, Structural)]
pub struct CommitId(u128);

impl View for CommitId {
    type V = u128;

    closed spec fn view(&self) -> u128 {
        self.0
    }
}

impl CommitId {
    /// A fresh random identifier.
    pub fn new() -> (r: CommitId)
        ensures
            r@ & UUID_VERSION_VARIANT_MASK == UUID_V4_BITS,
    {
        CommitId(random_uuid())
    }

    pub fn from_uuid(value: u128) -> (r: CommitId)
        ensures
            r@ == value,
    {
        CommitId(value)
    }

    pub fn as_uuid(&self) -> (r: u128)
        ensures
            r == self@,
    {
        self.0
    }

    /// The hyphenated text of the identifier.
    pub fn to_string(&self) -> (r: String)
        ensures
            r@ == uuid_text(self@),
    {
        uuid_to_text(self.0)
    }

    /// The first eight characters of the identifier's text.
    pub fn short_id(&self) -> (r: String)
        ensures
            r@ == uuid_text(self@).subrange(0, 8),
    {
        let full = uuid_to_text(self.0);
        full.deref().substring_char(0, 8).to_owned()
    }
}

impl Default for CommitId {
    fn default() -> (r: CommitId)
        ensures
            r@ & UUID_VERSION_VARIANT_MASK == UUID_V4_BITS,
    {
        CommitId::new()
    }
}

/// The identifier of a stream, a 128-bit value.
#[derive(Debug, Clone, Copy, PartialEq, Eq, Hash, Structural)]
pub struct StreamId(u128);

impl View for StreamId {
    type V = u128;

    closed spec fn view(&self) -> u128 {
        self.0
    }
}

impl StreamId {
    pub fn new() -> (r: StreamId)
        ensures
            r@ & UUID_VERSION_VARIANT_MASK == UUID_V4_BITS,
    {
        StreamId(random_uuid())
    }

    pub fn from_uuid(value: u128) -> (r: StreamId)
        ensures
            r@ == value,
    {
        StreamId(value)
    }

    pub fn as_uuid(&self) -> (r: u128)
        ensures
            r == self@,
    {
        self.0
    }

    pub fn to_string(&self) -> (r: String)
        ensures
            r@ == uuid_text(self@),
    {
        uuid_to_text(self.0)
    }
}

impl Default for StreamId {
    fn default() -> (r: StreamId)
        ensures
            r@ & UUID_VERSION_VARIANT_MASK == UUID_V4_BITS,
    {
        StreamId::new()
    }
}

/// The kind of a change to one path.
#[derive(Debug)]
pub enum ChangeType {
    Added,
    Modified,
    Deleted,
    Renamed { from: String },
    Copied { from: String },
}

/// A change kind as plain values.
pub enum ChangeTypeView {
    Added,
    Modified,
    Deleted,
    Renamed(Seq<char>),
    Copied(Seq<char>),
}

impl View for ChangeType {
    type V = ChangeTypeView;

    open spec fn view(&self) -> ChangeTypeView {
        match self {
            ChangeType::Added => ChangeTypeView::Added,
            ChangeType::Modified => ChangeTypeView::Modified,
            ChangeType::Deleted => ChangeTypeView::Deleted,
            ChangeType::Renamed { from } => ChangeTypeView::Renamed(from@),
            ChangeType::Copied { from } => ChangeTypeView::Copied(from@),
        }
    }
}

impl Clone for ChangeType {
    fn clone(&self) -> (r: Self)
        ensures
            r@ == self@,
    {
        match self {
            ChangeType::Added => ChangeType::Added,
            ChangeType::Modified => ChangeType::Modified,
            ChangeType::Deleted => ChangeType::Deleted,
            ChangeType::Renamed { from } => ChangeType::Renamed { from: from.clone() },
            ChangeType::Copied { from } => ChangeType::Copied { from: from.clone() },
        }
    }
}

/// The permission bits recorded for a changed file.
pub const DEFAULT_FILE_MODE: u32 = 0o644;

/// One path's change in a commit.
#[derive(Debug)]
pub struct FileChange {
    pub path: String,
    pub change_type: ChangeType,
    pub content_hash: Hash,
    pub previous_hash: Option<Hash>,
    pub mode: u32,
}

/// A change as plain values.
pub struct FileChangeView {
    pub path: Seq<char>,
    pub change_type: ChangeTypeView,
    pub content_hash: Seq<char>,
    pub previous_hash: Option<Seq<char>>,
    pub mode: u32,
}

pub open spec fn opt_hash_view(h: Option<Hash>) -> Option<Seq<char>> {
    match h {
        Some(x) => Some(x@),
        None => None,
    }
}

impl View for FileChange {
    type V = FileChangeView;

    open spec fn view(&self) -> FileChangeView {
        FileChangeView {
            path: self.path@,
            change_type: self.change_type@,
            content_hash: self.content_hash@,
            previous_hash: opt_hash_view(self.previous_hash),
            mode: self.mode,
        }
    }
}

fn clone_opt_hash(h: &Option<Hash>) -> (r: Option<Hash>)
    ensures
        opt_hash_view(r) == opt_hash_view(*h),
{
    match h {
        Some(x) => Some(x.clone()),
        None => None,
    }
}

impl Clone for FileChange {
    fn clone(&self) -> (r: Self)
        ensures
            r@ == self@,
    {
        FileChange {
            path: self.path.clone(),
            change_type: self.change_type.clone(),
            content_hash: self.content_hash.clone(),
            previous_hash: clone_opt_hash(&self.previous_hash),
            mode: self.mode,
        }
    }
}

/// The text recorded as the content hash of a deleted file: 64 zeros.
pub open spec fn zero_hash_text() -> Seq<char> {
    Seq::new(64, |i: int| '0')
}

fn zero_hash() -> (r: Hash)
    ensures
        r@ == zero_hash_text(),
{
    let zeros: Vec<u8> = vec![0u8; 32];
    let text = crate::hash::hex_encode(zeros.as_slice());
    assert(text@ =~= zero_hash_text());
    Hash::from_string(text)
}

impl FileChange {
    pub fn new_added(path: String, content_hash: Hash) -> (r: FileChange)
        ensures
            r@ == (FileChangeView {
                path: path@,
                change_type: ChangeTypeView::Added,
                content_hash: content_hash@,
                previous_hash: None,
                mode: DEFAULT_FILE_MODE,
            }),
    {
        FileChange {
            path,
            change_type: ChangeType::Added,
            content_hash,
            previous_hash: None,
            mode: DEFAULT_FILE_MODE,
        }
    }

    pub fn new_modified(path: String, content_hash: Hash, previous_hash: Hash) -> (r: FileChange)
        ensures
            r@ == (FileChangeView {
                path: path@,
                change_type: ChangeTypeView::Modified,
                content_hash: content_hash@,
                previous_hash: Some(previous_hash@),
                mode: DEFAULT_FILE_MODE,
            }),
    {
        FileChange {
            path,
            change_type: ChangeType::Modified,
            content_hash,
            previous_hash: Some(previous_hash),
            mode: DEFAULT_FILE_MODE,
        }
    }

    pub fn new_deleted(path: String, previous_hash: Hash) -> (r: FileChange)
        ensures
            r@ == (FileChangeView {
                path: path@,
                change_type: ChangeTypeView::Deleted,
                content_hash: zero_hash_text(),
                previous_hash: Some(previous_hash@),
                mode: DEFAULT_FILE_MODE,
            }),
    {
        FileChange {
            path,
            change_type: ChangeType::Deleted,
            content_hash: zero_hash(),
            previous_hash: Some(previous_hash),
            mode: DEFAULT_FILE_MODE,
        }
    }
}

/// An entry of a tree: a file with its mode, or a subtree.
#[derive(Debug)]
pub enum TreeEntry {
    Blob { hash: Hash, mode: u32 },
    Tree { hash: Hash },
}

/// A tree entry as plain values.
pub enum TreeEntryView {
    Blob(Seq<char>, u32),
    Tree(Seq<char>),
}

impl View for TreeEntry {
    type V = TreeEntryView;

    open spec fn view(&self) -> TreeEntryView {
        match self {
            TreeEntry::Blob { hash, mode } => TreeEntryView::Blob(hash@, *mode),
            TreeEntry::Tree { hash } => TreeEntryView::Tree(hash@),
        }
    }
}

/// Whether no key occurs twice in an association list.
pub open spec fn keys_unique<V>(s: Seq<(Seq<char>, V)>) -> bool {
    forall|i: int, j: int| 0 <= i < j < s.len() ==> s[i].0 != s[j].0
}

/// The association list after binding `k` to `v`: in place where `k` is bound, else at the end.
pub open spec fn assoc_put<V>(s: Seq<(Seq<char>, V)>, k: Seq<char>, v: V) -> Seq<(Seq<char>, V)> {
    if exists|i: int| 0 <= i < s.len() && s[i].0 == k {
        s.update(choose|i: int| 0 <= i < s.len() && s[i].0 == k, (k, v))
    } else {
        s.push((k, v))
    }
}

/// The association list made by binding each pair of `steps` in turn, starting empty.
pub open spec fn assoc_put_all<V>(steps: Seq<(Seq<char>, V)>) -> Seq<(Seq<char>, V)>
    decreases steps.len(),
{
    if steps.len() == 0 {
        seq![]
    } else {
        assoc_put(assoc_put_all(steps.drop_last()), steps.last().0, steps.last().1)
    }
}

/// Whether `k` is bound in an association list.
pub open spec fn assoc_has<V>(s: Seq<(Seq<char>, V)>, k: Seq<char>) -> bool {
    exists|i: int| 0 <= i < s.len() && s[i].0 == k
}

/// A set of named entries, each a file or a subtree, with the hash of its encoding.
#[derive(Debug)]
pub struct TreeObject {
    pub id: Hash,
    pub entries: Vec<(String, TreeEntry)>,
}

impl View for TreeObject {
    type V = Seq<(Seq<char>, TreeEntryView)>;

    open spec fn view(&self) -> Seq<(Seq<char>, TreeEntryView)> {
        self.entries@.map_values(|e: (String, TreeEntry)| (e.0@, e.1@))
    }
}

/// The bytes one tree entry contributes to the tree's encoding: its kind,
/// mode (for a file), path, and hash, ending in a newline.
pub open spec fn tree_entry_encoding(e: (Seq<char>, TreeEntryView)) -> Seq<u8> {
    match e.1 {
        TreeEntryView::Blob(h, m) => seq![98u8, 32u8] + decimal_text(m as nat) + seq![32u8]
            + encode_utf8(e.0) + seq![0u8] + encode_utf8(h) + seq![10u8],
        TreeEntryView::Tree(h) => seq![116u8, 32u8] + encode_utf8(e.0) + seq![0u8] + encode_utf8(h)
            + seq![10u8],
    }
}

/// The bytes a tree's hash is taken over: its entries' encodings in order.
pub open spec fn tree_encoding(entries: Seq<(Seq<char>, TreeEntryView)>) -> Seq<u8>
    decreases entries.len(),
{
    if entries.len() == 0 {
        seq![]
    } else {
        tree_encoding(entries.drop_last()) + tree_entry_encoding(entries.last())
    }
}

fn encode_tree_entry(path: &String, entry: &TreeEntry, data: &mut Vec<u8>)
    ensures
        final(data)@ == old(data)@ + tree_entry_encoding((path@, entry@)),
{
    let ghost start = data@;
    match entry {
        TreeEntry::Blob { hash, mode } => {
            data.push(98u8);
            data.push(32u8);
            let digits = decimal_bytes(*mode as u64);
            data.extend_from_slice(digits.as_slice());
            data.push(32u8);
            data.extend_from_slice(path.deref().as_bytes());
            data.push(0u8);
            data.extend_from_slice(hash.as_str().as_bytes());
            data.push(10u8);
        },
        TreeEntry::Tree { hash } => {
            data.push(116u8);
            data.push(32u8);
            data.extend_from_slice(path.deref().as_bytes());
            data.push(0u8);
            data.extend_from_slice(hash.as_str().as_bytes());
            data.push(10u8);
        },
    }
    assert(data@ =~= start + tree_entry_encoding((path@, entry@)));
}

impl TreeObject {
    pub open spec fn wf(&self) -> bool {
        keys_unique(self@)
    }

    pub fn new() -> (r: TreeObject)
        ensures
            r.wf(),
            r@ == Seq::<(Seq<char>, TreeEntryView)>::empty(),
            r.id@ == Seq::<char>::empty(),
    {
        let r = TreeObject { id: Hash::from_string(String::new()), entries: Vec::new() };
        assert(r@ =~= Seq::<(Seq<char>, TreeEntryView)>::empty());
        r
    }

    fn put(&mut self, path: String, entry: TreeEntry)
        requires
            old(self).wf(),
        ensures
            final(self).wf(),
            final(self)@ == assoc_put(old(self)@, path@, entry@),
            final(self).id == old(self).id,
    {
        let ghost k = path@;
        let mut i: usize = 0;
        while i < self.entries.len()
            invariant
                0 <= i <= self.entries.len(),
                *self == *old(self),
                k == path@,
                keys_unique(self@),
                forall|j: int| 0 <= j < i ==> self@[j].0 != k,
            decreases self.entries.len() - i,
        {
            if str_eq(self.entries[i].0.deref(), path.deref()) {
                proof {
                    assert(self@[i as int].0 == k);
                    let c = choose|j: int| 0 <= j < self@.len() && self@[j].0 == k;
                    assert(c == i as int);
                }
                self.entries.set(i, (path, entry));
                assert(self@ =~= assoc_put(old(self)@, k, entry@));
                return;
            }
            i = i + 1;
        }
        self.entries.push((path, entry));
        assert(self@ =~= assoc_put(old(self)@, k, entry@));
    }

    pub fn add_blob(&mut self, path: String, hash: Hash, mode: u32)
        requires
            old(self).wf(),
        ensures
            final(self).wf(),
            final(self)@ == assoc_put(old(self)@, path@, TreeEntryView::Blob(hash@, mode)),
            final(self).id == old(self).id,
    {
        self.put(path, TreeEntry::Blob { hash, mode });
    }

    pub fn add_tree(&mut self, path: String, hash: Hash)
        requires
            old(self).wf(),
        ensures
            final(self).wf(),
            final(self)@ == assoc_put(old(self)@, path@, TreeEntryView::Tree(hash@)),
            final(self).id == old(self).id,
    {
        self.put(path, TreeEntry::Tree { hash });
    }

    /// Whether the tree has an entry under this name.
    pub fn contains_entry(&self, path: &str) -> (r: bool)
        ensures
            r == assoc_has(self@, path@),
    {
        let mut i: usize = 0;
        while i < self.entries.len()
            invariant
                0 <= i <= self.entries.len(),
                forall|j: int| 0 <= j < i ==> self@[j].0 != path@,
            decreases self.entries.len() - i,
        {
            if str_eq(self.entries[i].0.deref(), path) {
                assert(self@[i as int].0 == path@);
                return true;
            }
            i = i + 1;
        }
        false
    }

    /// Sets the tree's id to the hash of its encoding.
    pub fn calculate_hash(&mut self)
        ensures
            final(self)@ == old(self)@,
            final(self).id@ == hash_text(tree_encoding(old(self)@)),
    {
        let mut data: Vec<u8> = Vec::new();
        let mut i: usize = 0;
        while i < self.entries.len()
            invariant
                0 <= i <= self.entries.len(),
                data@ == tree_encoding(self@.subrange(0, i as int)),
            decreases self.entries.len() - i,
        {
            let (path, entry) = &self.entries[i];
            encode_tree_entry(path, entry, &mut data);
            proof {
                let s = self@.subrange(0, i as int + 1);
                assert(s.drop_last() =~= self@.subrange(0, i as int));
            }
            i = i + 1;
        }
        assert(self@.subrange(0, self@.len() as int) =~= self@);
        self.id = Hash::new(data.as_slice());
    }
}

impl Default for TreeObject {
    fn default() -> (r: TreeObject)
        ensures
            r.wf(),
            r@ == Seq::<(Seq<char>, TreeEntryView)>::empty(),
    {
        TreeObject::new()
    }
}

/// Stored file content with the hash of that content.
#[derive(Debug)]
pub struct BlobObject {
    pub id: Hash,
    pub content: Vec<u8>,
}

/// A blob as plain values.
pub struct BlobView {
    pub id: Seq<char>,
    pub content: Seq<u8>,
}

impl View for BlobObject {
    type V = BlobView;

    open spec fn view(&self) -> BlobView {
        BlobView { id: self.id@, content: self.content@ }
    }
}

impl BlobObject {
    pub fn new(content: Vec<u8>) -> (r: BlobObject)
        ensures
            r.id@ == hash_text(content@),
            r.content@ == content@,
    {
        let id = Hash::new(content.as_slice());
        BlobObject { id, content }
    }

    pub fn from_string(content: String) -> (r: BlobObject)
        ensures
            r.content@ == encode_utf8(content@),
            r.id@ == hash_text(encode_utf8(content@)),
    {
        BlobObject::new(string_into_bytes(content))
    }

    /// The content as text, if it is valid UTF-8.
    pub fn as_string(&self) -> (r: Result<String, std::string::FromUtf8Error>)
        ensures
            r is Ok <==> valid_utf8(self.content@),
            r matches Ok(s) ==> s@ == decode_utf8(self.content@),
    {
        string_from_utf8(self.content.clone())
    }
}

impl Clone for BlobObject {
    fn clone(&self) -> (r: Self)
        ensures
            r.id@ == self.id@,
            r.content@ == self.content@,
    {
        BlobObject { id: self.id.clone(), content: self.content.clone() }
    }
}


proof fn lemma_nibble_bound(v: u128, s: u128)
    ensures
        (v >> s) & 15u128 <= 15u128,
{
    assert((v >> s) & 15u128 <= 15u128) by (bit_vector);
}

proof fn lemma_uuid_digit_eq(v1: u128, v2: u128, k: int, i: int)
    requires
        uuid_text(v1) == uuid_text(v2),
        0 <= k < 32,
        0 <= i < 36,
        i != 8 && i != 13 && i != 18 && i != 23,
        k == i - uuid_hyphens_before(i),
    ensures
        uuid_nibble(v1, k) == uuid_nibble(v2, k),
{
    lemma_nibble_bound(v1, (124 - 4 * k) as u128);
    lemma_nibble_bound(v2, (124 - 4 * k) as u128);
    assert(uuid_text(v1)[i] == hex_digit(uuid_nibble(v1, k)));
    assert(uuid_text(v2)[i] == hex_digit(uuid_nibble(v2, k)));
    lemma_hex_digit_injective(uuid_nibble(v1, k), uuid_nibble(v2, k));
}

/// The hyphenated text of an identifier determines it.
pub proof fn lemma_uuid_text_injective(v1: u128, v2: u128)
    requires
        uuid_text(v1) == uuid_text(v2),
    ensures
        v1 == v2,
{
    lemma_uuid_digit_eq(v1, v2, 0, 0);
    lemma_uuid_digit_eq(v1, v2, 1, 1);
    lemma_uuid_digit_eq(v1, v2, 2, 2);
    lemma_uuid_digit_eq(v1, v2, 3, 3);
    lemma_uuid_digit_eq(v1, v2, 4, 4);
    lemma_uuid_digit_eq(v1, v2, 5, 5);
    lemma_uuid_digit_eq(v1, v2, 6, 6);
    lemma_uuid_digit_eq(v1, v2, 7, 7);
    lemma_uuid_digit_eq(v1, v2, 8, 9);
    lemma_uuid_digit_eq(v1, v2, 9, 10);
    lemma_uuid_digit_eq(v1, v2, 10, 11);
    lemma_uuid_digit_eq(v1, v2, 11, 12);
    lemma_uuid_digit_eq(v1, v2, 12, 14);
    lemma_uuid_digit_eq(v1, v2, 13, 15);
    lemma_uuid_digit_eq(v1, v2, 14, 16);
    lemma_uuid_digit_eq(v1, v2, 15, 17);
    lemma_uuid_digit_eq(v1, v2, 16, 19);
    lemma_uuid_digit_eq(v1, v2, 17, 20);
    lemma_uuid_digit_eq(v1, v2, 18, 21);
    lemma_uuid_digit_eq(v1, v2, 19, 22);
    lemma_uuid_digit_eq(v1, v2, 20, 24);
    lemma_uuid_digit_eq(v1, v2, 21, 25);
    lemma_uuid_digit_eq(v1, v2, 22, 26);
    lemma_uuid_digit_eq(v1, v2, 23, 27);
    lemma_uuid_digit_eq(v1, v2, 24, 28);
    lemma_uuid_digit_eq(v1, v2, 25, 29);
    lemma_uuid_digit_eq(v1, v2, 26, 30);
    lemma_uuid_digit_eq(v1, v2, 27, 31);
    lemma_uuid_digit_eq(v1, v2, 28, 32);
    lemma_uuid_digit_eq(v1, v2, 29, 33);
    lemma_uuid_digit_eq(v1, v2, 30, 34);
    lemma_uuid_digit_eq(v1, v2, 31, 35);
    assert((v1 >> 124u128) & 15u128 == (v2 >> 124u128) & 15u128 &&
        (v1 >> 120u128) & 15u128 == (v2 >> 120u128) & 15u128 &&
        (v1 >> 116u128) & 15u128 == (v2 >> 116u128) & 15u128 &&
        (v1 >> 112u128) & 15u128 == (v2 >> 112u128) & 15u128 &&
        (v1 >> 108u128) & 15u128 == (v2 >> 108u128) & 15u128 &&
        (v1 >> 104u128) & 15u128 == (v2 >> 104u128) & 15u128 &&
        (v1 >> 100u128) & 15u128 == (v2 >> 100u128) & 15u128 &&
        (v1 >> 96u128) & 15u128 == (v2 >> 96u128) & 15u128 &&
        (v1 >> 92u128) & 15u128 == (v2 >> 92u128) & 15u128 &&
        (v1 >> 88u128) & 15u128 == (v2 >> 88u128) & 15u128 &&
        (v1 >> 84u128) & 15u128 == (v2 >> 84u128) & 15u128 &&
        (v1 >> 80u128) & 15u128 == (v2 >> 80u128) & 15u128 &&
        (v1 >> 76u128) & 15u128 == (v2 >> 76u128) & 15u128 &&
        (v1 >> 72u128) & 15u128 == (v2 >> 72u128) & 15u128 &&
        (v1 >> 68u128) & 15u128 == (v2 >> 68u128) & 15u128 &&
        (v1 >> 64u128) & 15u128 == (v2 >> 64u128) & 15u128 &&
        (v1 >> 60u128) & 15u128 == (v2 >> 60u128) & 15u128 &&
        (v1 >> 56u128) & 15u128 == (v2 >> 56u128) & 15u128 &&
        (v1 >> 52u128) & 15u128 == (v2 >> 52u128) & 15u128 &&
        (v1 >> 48u128) & 15u128 == (v2 >> 48u128) & 15u128 &&
        (v1 >> 44u128) & 15u128 == (v2 >> 44u128) & 15u128 &&
        (v1 >> 40u128) & 15u128 == (v2 >> 40u128) & 15u128 &&
        (v1 >> 36u128) & 15u128 == (v2 >> 36u128) & 15u128 &&
        (v1 >> 32u128) & 15u128 == (v2 >> 32u128) & 15u128 &&
        (v1 >> 28u128) & 15u128 == (v2 >> 28u128) & 15u128 &&
        (v1 >> 24u128) & 15u128 == (v2 >> 24u128) & 15u128 &&
        (v1 >> 20u128) & 15u128 == (v2 >> 20u128) & 15u128 &&
        (v1 >> 16u128) & 15u128 == (v2 >> 16u128) & 15u128 &&
        (v1 >> 12u128) & 15u128 == (v2 >> 12u128) & 15u128 &&
        (v1 >> 8u128) & 15u128 == (v2 >> 8u128) & 15u128 &&
        (v1 >> 4u128) & 15u128 == (v2 >> 4u128) & 15u128 &&
        (v1 >> 0u128) & 15u128 == (v2 >> 0u128) & 15u128
        ==> v1 == v2) by (bit_vector);
}

/// A lowercase hex digit or a hyphen.
pub open spec fn is_id_char(c: char) -> bool {
    let u = c as u32;
    (48 <= u <= 57) || (97 <= u <= 102) || u == 45
}

/// Every character of an identifier's text is a lowercase hex digit or a hyphen.
pub proof fn lemma_uuid_text_chars(v: u128)
    ensures
        forall|i: int| 0 <= i < 36 ==> is_id_char(#[trigger] uuid_text(v)[i]),
        forall|i: int| 0 <= i < 36 ==> !is_white_space(#[trigger] uuid_text(v)[i]),
{
    assert forall|i: int| 0 <= i < 36 implies is_id_char(#[trigger] uuid_text(v)[i]) by {
        if !(i == 8 || i == 13 || i == 18 || i == 23) {
            let k = i - uuid_hyphens_before(i);
            lemma_nibble_bound(v, (124 - 4 * k) as u128);
        }
    }
}

} // verus!
