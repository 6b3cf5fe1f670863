//! The sending side's file list: an insertion-ordered map from file id to
//! the file's descriptor, transfer status, source path and upload token.
use vstd::prelude::*;
use vstd::string::StringSliceAdditionalSpecFns;

use crate::dto::{FileDto, FileDtoView, FileType, spec_file_type_of_mime};
use crate::outside::{diff_path_of, md5_hex_of, mime_of, parent_path_of};

verus! {

/// Transfer status of one file. Transitions are monotone along
/// `Queue -> Sending -> {Finished | Failed}`, with `Skipped` as the
/// terminal status of files the receiver did not accept.
#[derive(Clone, Copy, Debug, PartialEq, Eq, Structural)]
pub enum FileStatus {
    Queue,
    Skipped,
    Sending,
    Failed,
    Finished,
}

/// One outbound file: its stable insertion index, descriptor, status, the
/// source path (absent for inline text sent from the preview), and the
/// upload token issued by the receiver.
#[derive(Debug)]
pub struct SendingFile {
    pub index: usize,
    pub file: FileDto,
    pub status: FileStatus,
    pub path: Option<String>,
    pub token: Option<String>,
}

/// Mathematical image of a [`SendingFile`].
pub ghost struct SendingFileView {
    pub index: usize,
    pub file: FileDtoView,
    pub status: FileStatus,
    pub path: Option<Seq<char>>,
    pub token: Option<Seq<char>>,
}

impl View for SendingFile {
    type V = SendingFileView;

    open spec fn view(&self) -> SendingFileView {
        SendingFileView {
            index: self.index,
            file: self.file@,
            status: self.status,
            path: self.path.deep_view(),
            token: self.token.deep_view(),
        }
    }
}

impl DeepView for SendingFile {
    type V = SendingFileView;

    open spec fn deep_view(&self) -> SendingFileView {
        self.view()
    }
}

impl Clone for SendingFile {
    fn clone(&self) -> (r: Self)
        ensures
            r == *self,
    {
        SendingFile {
            index: self.index,
            file: self.file.clone(),
            status: self.status,
            path: crate::dto::clone_opt_string(&self.path),
            token: crate::dto::clone_opt_string(&self.token),
        }
    }
}

impl SendingFile {
    /// A freshly queued file.
    pub fn new(index: usize, file: FileDto, path: Option<String>) -> (r: Self)
        ensures
            r@ == (SendingFileView {
                index,
                file: file@,
                status: FileStatus::Queue,
                path: path.deep_view(),
                token: None,
            }),
    {
        SendingFile { index, file, status: FileStatus::Queue, path, token: None }
    }
}

#[verifier::external_type_specification]
#[verifier::external_body]
#[verifier::reject_recursive_types(K)]
#[verifier::reject_recursive_types(V)]
#[verifier::reject_recursive_types(S)]
pub struct ExLinkedHashMap<K, V, S>(linked_hash_map::LinkedHashMap<K, V, S>);

/// What the sending-files map holds: its `(file_id, file)` pairs in
/// insertion order, oldest first.
pub uninterp spec fn sending_entries(m: linked_hash_map::LinkedHashMap<String, SendingFile>) -> Seq<
    (Seq<char>, SendingFileView),
>;

/// Whether `k` occurs among the keys of `entries`.
pub open spec fn has_key(entries: Seq<(Seq<char>, SendingFileView)>, k: Seq<char>) -> bool {
    exists|i: int| 0 <= i < entries.len() && (#[trigger] entries[i]).0 == k
}

/// The position of key `k` in `entries`.
pub open spec fn key_index(entries: Seq<(Seq<char>, SendingFileView)>, k: Seq<char>) -> int {
    choose|i: int| 0 <= i < entries.len() && (#[trigger] entries[i]).0 == k
}

/// Relies on `LinkedHashMap::new`: the new map is empty.
#[verifier::external_body]
fn lhm_new() -> (m: linked_hash_map::LinkedHashMap<String, SendingFile>)
    ensures
        sending_entries(m) == Seq::<(Seq<char>, SendingFileView)>::empty(),
{
    linked_hash_map::LinkedHashMap::new()
}

/// Relies on `LinkedHashMap::len`.
#[verifier::external_body]
fn lhm_len(m: &linked_hash_map::LinkedHashMap<String, SendingFile>) -> (n: usize)
    ensures
        n == sending_entries(*m).len(),
{
    m.len()
}

/// Relies on `LinkedHashMap::get`: returns the value stored under the key,
/// if any.
#[verifier::external_body]
fn lhm_get<'a>(m: &'a linked_hash_map::LinkedHashMap<String, SendingFile>, k: &String) -> (r:
    Option<&'a SendingFile>)
    ensures
        match r {
            Some(f) => has_key(sending_entries(*m), k@) && f@ == sending_entries(*m)[key_index(
                sending_entries(*m),
                k@,
            )].1,
            None => !has_key(sending_entries(*m), k@),
        },
{
    m.get(k)
}

/// Relies on `LinkedHashMap::insert`: a key not yet present is appended at
/// the back; an existing key keeps its value replaced and is moved to the
/// back.
#[verifier::external_body]
fn lhm_insert(
    m: &mut linked_hash_map::LinkedHashMap<String, SendingFile>,
    k: String,
    v: SendingFile,
)
    ensures
        sending_entries(*final(m)) == if has_key(sending_entries(*old(m)), k@) {
            sending_entries(*old(m)).remove(key_index(sending_entries(*old(m)), k@)).push((k@, v@))
        } else {
            sending_entries(*old(m)).push((k@, v@))
        },
{
    m.insert(k, v);
}

/// Relies on `LinkedHashMap::iter`: pairs come in insertion order, oldest
/// first.
#[verifier::external_body]
fn lhm_entries(m: &linked_hash_map::LinkedHashMap<String, SendingFile>) -> (r: Vec<
    (String, SendingFile),
>)
    ensures
        r.deep_view() == sending_entries(*m),
{
    m.iter().map(|(k, v)| (k.clone(), v.clone())).collect()
}

/// Relies on `LinkedHashMap::clone`: the copy holds the same pairs in the
/// same order.
#[verifier::external_body]
fn lhm_clone(m: &linked_hash_map::LinkedHashMap<String, SendingFile>) -> (r:
    linked_hash_map::LinkedHashMap<String, SendingFile>)
    ensures
        sending_entries(r) == sending_entries(*m),
{
    m.clone()
}

/// The ordered map of files queued for sending, keyed by file id.
#[derive(Debug)]
pub struct SendingFiles {
    pub files: linked_hash_map::LinkedHashMap<String, SendingFile>,
}

impl View for SendingFiles {
    type V = Seq<(Seq<char>, SendingFileView)>;

    open spec fn view(&self) -> Seq<(Seq<char>, SendingFileView)> {
        sending_entries(self.files)
    }
}

/// Well-formed sending entries: keys are unique, and each key is the id of
/// the file stored under it.
pub open spec fn entries_wf(entries: Seq<(Seq<char>, SendingFileView)>) -> bool {
    &&& forall|i: int, j: int|
        0 <= i < entries.len() && 0 <= j < entries.len() && i != j ==> (#[trigger] entries[i]).0
            != (#[trigger] entries[j]).0
    &&& forall|i: int| 0 <= i < entries.len() ==> (#[trigger] entries[i]).1.file.id == entries[i].0
}

impl Default for SendingFiles {
    fn default() -> (r: Self)
        ensures
            r@ == Seq::<(Seq<char>, SendingFileView)>::empty(),
    {
        SendingFiles { files: lhm_new() }
    }
}

impl Clone for SendingFiles {
    fn clone(&self) -> (r: Self)
        ensures
            r@ == self@,
    {
        SendingFiles { files: lhm_clone(&self.files) }
    }
}

impl SendingFiles {
    /// The file stored under `file_id`, if any.
    pub fn get(&self, file_id: &String) -> (r: Option<&SendingFile>)
        ensures
            match r {
                Some(f) => has_key(self@, file_id@) && f@ == self@[key_index(self@, file_id@)].1,
                None => !has_key(self@, file_id@),
            },
    {
        lhm_get(&self.files, file_id)
    }

    /// How many files are queued.
    pub fn len(&self) -> (n: usize)
        ensures
            n == self@.len(),
    {
        lhm_len(&self.files)
    }

    /// The queued files' descriptors, in insertion order.
    pub fn to_dto_map(&self) -> (r: Vec<FileDto>)
        ensures
            r.deep_view().len() == self@.len(),
            forall|i: int| 0 <= i < self@.len() ==> r.deep_view()[i] == (#[trigger] self@[i]).1.file,
    {
        let entries = lhm_entries(&self.files);
        let mut r: Vec<FileDto> = Vec::new();
        let mut i: usize = 0;
        while i < entries.len()
            invariant
                i <= entries.len(),
                entries.deep_view() == self@,
                r.deep_view().len() == i,
                forall|j: int| 0 <= j < i ==> r.deep_view()[j] == (#[trigger] self@[j]).1.file,
            decreases entries.len() - i,
        {
            r.push(entries[i].1.file.clone());
            proof {
                assert(entries.deep_view()[i as int] == (entries@[i as int].0@, entries@[i as int].1@));
            }
            i += 1;
        }
        r
    }

    /// Inserts `f` under `id` when `id` is not yet taken; a taken id (a
    /// collision of freshly drawn ids) leaves the map unchanged.
    fn insert_fresh(&mut self, id: String, f: SendingFile) -> (added: bool)
        ensures
            added == !has_key(old(self)@, id@),
            added ==> final(self)@ == old(self)@.push((id@, f@)),
            !added ==> final(self)@ == old(self)@,
    {
        match lhm_get(&self.files, &id) {
            Some(_) => false,
            None => {
                lhm_insert(&mut self.files, id, f);
                true
            },
        }
    }
}

/// The suffix of `p` after its last `/`; the whole of `p` when it has none.
pub open spec fn after_last_slash(p: Seq<char>) -> Seq<char>
    decreases p.len(),
{
    if p.len() == 0 {
        p
    } else if p[p.len() - 1] == '/' {
        Seq::empty()
    } else {
        after_last_slash(p.drop_last()).push(p[p.len() - 1])
    }
}

/// The base name of a path: the part after the last `/`, or nothing when
/// the path ends in a separator or is empty.
pub open spec fn spec_basename(p: Seq<char>) -> Option<Seq<char>> {
    if after_last_slash(p).len() == 0 {
        None
    } else {
        Some(after_last_slash(p))
    }
}

proof fn lemma_after_last_slash(p: Seq<char>, i: int)
    requires
        0 <= i <= p.len(),
        forall|j: int| i <= j < p.len() ==> p[j] != '/',
        i > 0 ==> p[i - 1] == '/',
    ensures
        after_last_slash(p) == p.subrange(i, p.len() as int),
    decreases p.len(),
{
    if p.len() == 0 {
        assert(after_last_slash(p) =~= p.subrange(0, 0));
    } else if p[p.len() - 1] == '/' {
        assert(i == p.len());
        assert(after_last_slash(p) =~= p.subrange(i, p.len() as int));
    } else {
        assert(i < p.len());
        lemma_after_last_slash(p.drop_last(), i);
        assert(p.drop_last().subrange(i, p.len() - 1) =~= p.subrange(i, p.len() - 1));
        assert(after_last_slash(p) =~= p.subrange(i, p.len() as int));
    }
}

/// The base name of a path string.
pub fn basename(p: &str) -> (r: Option<String>)
    ensures
        r.deep_view() == spec_basename(p@),
{
    let n = p.unicode_len();
    let mut i: usize = n;
    while i > 0 && p.get_char(i - 1) != '/'
        invariant
            i <= n,
            n == p@.len(),
            forall|j: int| i <= j < n ==> p@[j] != '/',
        decreases i,
    {
        i -= 1;
    }
    proof {
        lemma_after_last_slash(p@, i as int);
    }
    if i == n {
        None
    } else {
        Some(String::from_str(p.substring_char(i, n)))
    }
}

/// Path separators normalized: every `\` replaced by `/`.
pub open spec fn normalize_seps(p: Seq<char>) -> Seq<char> {
    Seq::new(
        p.len(),
        |i: int|
            if p[i] == '\\' {
                '/'
            } else {
                p[i]
            },
    )
}

/// Replaces every backslash in `p` by a forward slash.
pub fn normalize_separators(p: &str) -> (r: String)
    ensures
        r@ == normalize_seps(p@),
{
    let n = p.unicode_len();
    let mut r = String::new();
    let mut i: usize = 0;
    while i < n
        invariant
            i <= n,
            n == p@.len(),
            r@ =~= normalize_seps(p@).subrange(0, i as int),
        decreases n - i,
    {
        let c = p.get_char(i);
        if c == '\\' {
            crate::text::push_char(&mut r, '/');
        } else {
            crate::text::push_char(&mut r, c);
        }
        proof {
            assert(r@ =~= normalize_seps(p@).subrange(0, i + 1));
        }
        i += 1;
    }
    proof {
        assert(normalize_seps(p@).subrange(0, n as int) =~= normalize_seps(p@));
    }
    r
}

/// The file queued by `add_text`: named by the MD5 digest of the text, with
/// the digest as hash and, when asked for, the text itself as preview.
pub open spec fn spec_text_file(
    id: Seq<char>,
    index: usize,
    text_bytes: Seq<u8>,
    text: Seq<char>,
    preview: bool,
) -> SendingFileView {
    SendingFileView {
        index,
        file: FileDtoView {
            id,
            file_name: md5_hex_of(text_bytes) + ".txt"@,
            size: text_bytes.len() as u64,
            file_type: FileType::Text,
            hash: Some(md5_hex_of(text_bytes)),
            preview: if preview {
                Some(text)
            } else {
                None
            },
        },
        status: FileStatus::Queue,
        path: None,
        token: None,
    }
}

/// The file queued by `add_file`: named by the override, else the path's
/// base name, else the id; categorized by the MIME guessed from the name.
pub open spec fn spec_path_file(
    id: Seq<char>,
    index: usize,
    path: Seq<char>,
    size: u64,
    file_name: Option<Seq<char>>,
) -> SendingFileView {
    let name = match file_name {
        Some(n) => n,
        None => match spec_basename(path) {
            Some(b) => b,
            None => id,
        },
    };
    SendingFileView {
        index,
        file: FileDtoView {
            id,
            file_name: name,
            size,
            file_type: spec_file_type_of_mime(mime_of(name)),
            hash: None,
            preview: None,
        },
        status: FileStatus::Queue,
        path: Some(path),
        token: None,
    }
}

/// The transmitted name of a directory entry: the path of `entry_path`
/// relative to `base`, separators normalized to `/`.
pub open spec fn dir_name_of(base: Seq<char>, entry_path: Seq<char>) -> Option<Seq<char>> {
    match diff_path_of(entry_path, base) {
        Some(d) => Some(normalize_seps(d)),
        None => None,
    }
}

/// One entry found when walking a directory, as handed in by the caller.
#[derive(Debug, Clone)]
pub struct DirEntry {
    pub path: String,
    pub size: u64,
    pub is_file: bool,
}

/// Mathematical image of a [`DirEntry`].
pub ghost struct DirEntryView {
    pub path: Seq<char>,
    pub size: u64,
    pub is_file: bool,
}

impl View for DirEntry {
    type V = DirEntryView;

    open spec fn view(&self) -> DirEntryView {
        DirEntryView { path: self.path@, size: self.size, is_file: self.is_file }
    }
}

impl DeepView for DirEntry {
    type V = DirEntryView;

    open spec fn deep_view(&self) -> DirEntryView {
        self.view()
    }
}

/// Computes the transmitted name of one directory entry.
pub fn dir_entry_name(base: &str, entry_path: &str) -> (r: Option<String>)
    ensures
        r.deep_view() == dir_name_of(base@, entry_path@),
{
    match crate::outside::diff_path(entry_path, base) {
        Some(d) => Some(normalize_separators(d.as_str())),
        None => None,
    }
}

/// The token issued for `id`, if any: the last match in the pairs, as a
/// JSON map whose duplicate keys overwrite earlier ones would store it.
pub open spec fn spec_token_lookup(toks: Seq<(Seq<char>, Seq<char>)>, id: Seq<char>) -> Option<
    Seq<char>,
>
    decreases toks.len(),
{
    if toks.len() == 0 {
        None
    } else if toks.last().0 == id {
        Some(toks.last().1)
    } else {
        spec_token_lookup(toks.drop_last(), id)
    }
}

/// Finds the token issued for `id` in the response pairs.
pub fn token_lookup(toks: &Vec<(String, String)>, id: &String) -> (r: Option<String>)
    ensures
        r.deep_view() == spec_token_lookup(toks.deep_view(), id@),
{
    let ghost tv = toks.deep_view();
    let mut best: Option<String> = None;
    let mut i: usize = 0;
    while i < toks.len()
        invariant
            i <= toks.len(),
            tv == toks.deep_view(),
            tv.len() == toks.len(),
            best.deep_view() == spec_token_lookup(tv.take(i as int), id@),
        decreases toks.len() - i,
    {
        proof {
            assert(tv.take(i + 1).drop_last() =~= tv.take(i as int));
            assert(tv.take(i + 1).last() == tv[i as int]);
            assert(tv[i as int] == (toks@[i as int].0@, toks@[i as int].1@));
        }
        if crate::text::str_eq(toks[i].0.as_str(), id.as_str()) {
            best = Some(toks[i].1.clone());
        }
        i += 1;
    }
    proof {
        assert(tv.take(toks.len() as int) =~= tv);
    }
    best
}

/// A file after the prepare response: files the receiver accepted turn
/// `Sending` and carry their token; the rest are `Skipped`.
pub open spec fn spec_apply_token(f: SendingFileView, t: Option<Seq<char>>) -> SendingFileView {
    match t {
        Some(tok) => SendingFileView { status: FileStatus::Sending, token: Some(tok), ..f },
        None => SendingFileView { status: FileStatus::Skipped, ..f },
    }
}

/// A file brought to its terminal status.
pub open spec fn spec_finish_file(f: SendingFileView, success: bool) -> SendingFileView {
    SendingFileView {
        status: if success {
            FileStatus::Finished
        } else {
            FileStatus::Failed
        },
        ..f
    }
}

/// How many of the walked entries are regular files.
pub open spec fn count_files(entries: Seq<DirEntryView>) -> nat
    decreases entries.len(),
{
    if entries.len() == 0 {
        0
    } else {
        (if entries[0].is_file {
            1nat
        } else {
            0nat
        }) + count_files(entries.drop_first())
    }
}

/// One walk entry applied to the map: a regular file is queued under the
/// drawn id, named relative to `base`; an id already taken (a collision of
/// freshly drawn ids) leaves the map unchanged.
pub open spec fn spec_dir_step(
    acc: Seq<(Seq<char>, SendingFileView)>,
    base: Seq<char>,
    e: DirEntryView,
    id: Seq<char>,
) -> Seq<(Seq<char>, SendingFileView)> {
    if has_key(acc, id) {
        acc
    } else {
        acc.push(
            (
                id,
                spec_path_file(
                    id,
                    acc.len() as usize,
                    e.path,
                    e.size,
                    Some(dir_name_of(base, e.path)->Some_0),
                ),
            ),
        )
    }
}

/// The map after queuing the regular files of `entries` in order, the
/// k-th regular file under the k-th drawn id.
pub open spec fn spec_add_dir(
    acc: Seq<(Seq<char>, SendingFileView)>,
    base: Seq<char>,
    entries: Seq<DirEntryView>,
    ids: Seq<Seq<char>>,
) -> Seq<(Seq<char>, SendingFileView)>
    decreases entries.len(),
{
    if entries.len() == 0 {
        acc
    } else if entries[0].is_file {
        spec_add_dir(
            spec_dir_step(acc, base, entries[0], ids[0]),
            base,
            entries.drop_first(),
            ids.drop_first(),
        )
    } else {
        spec_add_dir(acc, base, entries.drop_first(), ids)
    }
}

proof fn lemma_count_files_snoc(entries: Seq<DirEntryView>, e: DirEntryView)
    ensures
        count_files(entries.push(e)) == count_files(entries) + (if e.is_file {
            1nat
        } else {
            0nat
        }),
    decreases entries.len(),
{
    reveal_with_fuel(count_files, 3);
    if entries.len() == 0 {
        assert(entries.push(e)[0] == e);
        assert(entries.push(e).drop_first() =~= Seq::<DirEntryView>::empty());
    } else {
        assert(entries.push(e)[0] == entries[0]);
        assert(entries.push(e).drop_first() =~= entries.drop_first().push(e));
        lemma_count_files_snoc(entries.drop_first(), e);
    }
}

proof fn lemma_spec_add_dir_snoc(
    acc: Seq<(Seq<char>, SendingFileView)>,
    base: Seq<char>,
    entries: Seq<DirEntryView>,
    ids: Seq<Seq<char>>,
    e: DirEntryView,
    id: Seq<char>,
)
    requires
        ids.len() == count_files(entries),
    ensures
        e.is_file ==> spec_add_dir(acc, base, entries.push(e), ids.push(id)) == spec_dir_step(
            spec_add_dir(acc, base, entries, ids),
            base,
            e,
            id,
        ),
        !e.is_file ==> spec_add_dir(acc, base, entries.push(e), ids) == spec_add_dir(
            acc,
            base,
            entries,
            ids,
        ),
    decreases entries.len(),
{
    reveal_with_fuel(spec_add_dir, 3);
    reveal_with_fuel(count_files, 3);
    if entries.len() == 0 {
        assert(entries.push(e)[0] == e);
        assert(entries.push(e).drop_first() =~= Seq::<DirEntryView>::empty());
        if e.is_file {
            assert(ids.push(id)[0] == id);
            assert(ids.push(id).drop_first() =~= ids);
        }
    } else {
        assert(entries.push(e)[0] == entries[0]);
        assert(entries.push(e).drop_first() =~= entries.drop_first().push(e));
        if entries[0].is_file {
            assert(count_files(entries) == 1 + count_files(entries.drop_first()));
            assert(ids.len() >= 1);
            assert(ids.push(id)[0] == ids[0]);
            assert(ids.push(id).drop_first() =~= ids.drop_first().push(id));
            lemma_spec_add_dir_snoc(
                spec_dir_step(acc, base, entries[0], ids[0]),
                base,
                entries.drop_first(),
                ids.drop_first(),
                e,
                id,
            );
        } else {
            lemma_spec_add_dir_snoc(acc, base, entries.drop_first(), ids, e, id);
        }
    }
}

impl SendingFiles {
    /// Queues inline text under a freshly drawn id, which is returned: the
    /// file is named by the text's MD5 digest, and carries the text as
    /// preview when `preview` is set. Only when the drawn id is already a
    /// key (a collision of freshly drawn ids) is the map left unchanged.
    pub fn add_text(&mut self, text: &str, preview: bool) -> (id: String)
        ensures
            id@.len() == 36,
            !has_key(old(self)@, id@) ==> final(self)@ == old(self)@.push(
                (
                    id@,
                    spec_text_file(
                        id@,
                        old(self)@.len() as usize,
                        text.spec_bytes(),
                        text@,
                        preview,
                    ),
                ),
            ),
            has_key(old(self)@, id@) ==> final(self)@ == old(self)@,
    {
        let id = crate::outside::uuid_v4();
        let bytes = text.as_bytes();
        let hash = crate::outside::md5_hex(bytes);
        let mut name = hash.clone();
        name.append(".txt");
        let size = bytes.len() as u64;
        let file = FileDto {
            id: id.clone(),
            file_name: name,
            size,
            file_type: FileType::Text,
            hash: Some(hash),
            preview: if preview {
                Some(String::from_str(text))
            } else {
                None
            },
        };
        let index = self.len();
        let sf = SendingFile::new(index, file, None);
        let ret = id.clone();
        self.insert_fresh(id, sf);
        proof {
            assert(sf@ == spec_text_file(
                ret@,
                old(self)@.len() as usize,
                text.spec_bytes(),
                text@,
                preview,
            ));
        }
        ret
    }

    /// Queues one file of the given size from `path` under a freshly drawn
    /// id, which is returned; it is named by the override, else the path's
    /// base name, else the id itself. Only when the drawn id is already a
    /// key (a collision of freshly drawn ids) is the map left unchanged.
    pub fn add_file(&mut self, path: &str, size: u64, file_name: Option<String>) -> (id: String)
        ensures
            id@.len() == 36,
            !has_key(old(self)@, id@) ==> final(self)@ == old(self)@.push(
                (
                    id@,
                    spec_path_file(
                        id@,
                        old(self)@.len() as usize,
                        path@,
                        size,
                        file_name.deep_view(),
                    ),
                ),
            ),
            has_key(old(self)@, id@) ==> final(self)@ == old(self)@,
    {
        let id = crate::outside::uuid_v4();
        let name: String = match file_name {
            Some(n) => n,
            None => match basename(path) {
                Some(b) => b,
                None => id.clone(),
            },
        };
        let mime = crate::outside::guess_mime(name.as_str());
        let ft = FileType::from_mime(mime.as_str());
        let file = FileDto {
            id: id.clone(),
            file_name: name,
            size,
            file_type: ft,
            hash: None,
            preview: None,
        };
        let index = self.len();
        let sf = SendingFile::new(index, file, Some(String::from_str(path)));
        let ret = id.clone();
        self.insert_fresh(id, sf);
        ret
    }

    /// Queues every regular file found under the directory `path`, each
    /// named by its path relative to the directory's parent, so the
    /// directory's own name is preserved in transmitted names. Returns the
    /// ids drawn, one per regular file, in walk order; the resulting map is
    /// exactly the fold of `spec_dir_step` over those entries and ids.
    ///
    /// Fails with `NoPermission` exactly when the directory has no parent
    /// or some entry's relative path cannot be computed; entries queued
    /// before the failing one stay queued.
    pub fn add_dir(&mut self, path: &str, entries: &Vec<DirEntry>) -> (r: Result<
        Vec<String>,
        crate::send::SendError,
    >)
        ensures
            r matches Err(e) ==> e == crate::send::SendError::NoPermission,
            (r is Err) == (parent_path_of(path@) is None || exists|k: int|
                0 <= k < entries.deep_view().len() && (#[trigger] entries.deep_view()[k]).is_file
                    && dir_name_of(
                    parent_path_of(path@)->Some_0,
                    entries.deep_view()[k].path,
                ) is None),
            old(self)@.is_prefix_of(final(self)@),
            r matches Ok(ids) ==> {
                &&& ids.deep_view().len() == count_files(entries.deep_view())
                &&& forall|k: int|
                    0 <= k < ids.deep_view().len() ==> (#[trigger] ids.deep_view()[k]).len() == 36
                &&& final(self)@ == spec_add_dir(
                    old(self)@,
                    parent_path_of(path@)->Some_0,
                    entries.deep_view(),
                    ids.deep_view(),
                )
            },
    {
        let ghost evs = entries.deep_view();
        let base: String = match crate::outside::parent_path(path) {
            Some(b) => b,
            None => {
                return Err(crate::send::SendError::NoPermission);
            },
        };
        let mut ids: Vec<String> = Vec::new();
        let mut i: usize = 0;
        while i < entries.len()
            invariant
                i <= entries.len(),
                evs == entries.deep_view(),
                evs.len() == entries.len(),
                parent_path_of(path@) == Some(base@),
                forall|k: int|
                    0 <= k < i ==> ((#[trigger] evs[k]).is_file ==> dir_name_of(
                        base@,
                        evs[k].path,
                    ) is Some),
                old(self)@.is_prefix_of(self@),
                ids.deep_view().len() == count_files(evs.take(i as int)),
                forall|k: int|
                    0 <= k < ids.deep_view().len() ==> (#[trigger] ids.deep_view()[k]).len() == 36,
                self@ == spec_add_dir(old(self)@, base@, evs.take(i as int), ids.deep_view()),
            decreases entries.len() - i,
        {
            let entry = &entries[i];
            proof {
                assert(evs.take(i + 1).drop_last() =~= evs.take(i as int));
                assert(evs.take(i + 1) =~= evs.take(i as int).push(evs[i as int]));
            }
            if entry.is_file {
                let name: String = match dir_entry_name(base.as_str(), entry.path.as_str()) {
                    Some(n) => n,
                    None => {
                        proof {
                            assert(evs[i as int].is_file && dir_name_of(
                                base@,
                                evs[i as int].path,
                            ) is None);
                        }
                        return Err(crate::send::SendError::NoPermission);
                    },
                };
                let ghost before = self@;
                let ghost idsv = ids.deep_view();
                let id = self.add_file(entry.path.as_str(), entry.size, Some(name));
                proof {
                    assert(self@ == spec_dir_step(before, base@, evs[i as int], id@));
                    lemma_spec_add_dir_snoc(
                        old(self)@,
                        base@,
                        evs.take(i as int),
                        idsv,
                        evs[i as int],
                        id@,
                    );
                    lemma_count_files_snoc(evs.take(i as int), evs[i as int]);
                }
                ids.push(id);
                proof {
                    assert(ids.deep_view() =~= idsv.push(ids@[ids@.len() - 1]@));
                    assert(old(self)@.is_prefix_of(self@));
                }
            } else {
                proof {
                    lemma_spec_add_dir_snoc(
                        old(self)@,
                        base@,
                        evs.take(i as int),
                        ids.deep_view(),
                        evs[i as int],
                        Seq::empty(),
                    );
                    lemma_count_files_snoc(evs.take(i as int), evs[i as int]);
                }
            }
            i += 1;
        }
        proof {
            assert(evs.take(entries.len() as int) =~= evs);
        }
        Ok(ids)
    }

    /// Applies the receiver's prepare response: files with a token turn
    /// `Sending` and keep it, files without one are `Skipped`.
    pub fn update_token(&mut self, tokens: &Vec<(String, String)>)
        requires
            entries_wf(old(self)@),
        ensures
            final(self)@.len() == old(self)@.len(),
            forall|i: int|
                0 <= i < old(self)@.len() ==> (#[trigger] final(self)@[i]).0 == old(self)@[i].0
                    && final(self)@[i].1 == spec_apply_token(
                    old(self)@[i].1,
                    spec_token_lookup(tokens.deep_view(), old(self)@[i].0),
                ),
    {
        let ghost before = self@;
        let ents = lhm_entries(&self.files);
        let mut nm = lhm_new();
        let mut i: usize = 0;
        while i < ents.len()
            invariant
                i <= ents.len(),
                ents.deep_view() == before,
                ents.len() == before.len(),
                entries_wf(before),
                sending_entries(nm).len() == i,
                forall|j: int|
                    0 <= j < i ==> (#[trigger] sending_entries(nm)[j]).0 == before[j].0
                        && sending_entries(nm)[j].1 == spec_apply_token(
                        before[j].1,
                        spec_token_lookup(tokens.deep_view(), before[j].0),
                    ),
            decreases ents.len() - i,
        {
            let k = ents[i].0.clone();
            let f = ents[i].1.clone();
            proof {
                assert(ents.deep_view()[i as int] == (ents@[i as int].0.deep_view(), ents@[
                    i as int].1.deep_view()));
            }
            let tok = token_lookup(tokens, &k);
            let nf = match tok {
                Some(t) => SendingFile {
                    index: f.index,
                    file: f.file,
                    status: FileStatus::Sending,
                    path: f.path,
                    token: Some(t),
                },
                None => SendingFile {
                    index: f.index,
                    file: f.file,
                    status: FileStatus::Skipped,
                    path: f.path,
                    token: f.token,
                },
            };
            proof {
                assert(forall|j: int|
                    0 <= j < i ==> (#[trigger] sending_entries(nm)[j]).0 == before[j].0);
                assert(!has_key(sending_entries(nm), k@)) by {
                    if has_key(sending_entries(nm), k@) {
                        let j = key_index(sending_entries(nm), k@);
                        assert(before[j].0 == before[i as int].0);
                    }
                }
            }
            lhm_insert(&mut nm, k, nf);
            i += 1;
        }
        self.files = nm;
    }

    /// Brings one file to its terminal status: `Finished` on success,
    /// `Failed` otherwise. A file id the map does not hold changes nothing.
    pub fn to_finish_status(&mut self, file_id: &String, success: bool)
        requires
            entries_wf(old(self)@),
        ensures
            !has_key(old(self)@, file_id@) ==> final(self)@ == old(self)@,
            has_key(old(self)@, file_id@) ==> final(self)@ == old(self)@.update(
                key_index(old(self)@, file_id@),
                (
                    old(self)@[key_index(old(self)@, file_id@)].0,
                    spec_finish_file(old(self)@[key_index(old(self)@, file_id@)].1, success),
                ),
            ),
    {
        let ghost before = self@;
        let ents = lhm_entries(&self.files);
        let mut nm = lhm_new();
        let mut i: usize = 0;
        while i < ents.len()
            invariant
                i <= ents.len(),
                ents.deep_view() == before,
                ents.len() == before.len(),
                entries_wf(before),
                sending_entries(nm).len() == i,
                forall|j: int|
                    0 <= j < i ==> (#[trigger] sending_entries(nm)[j]).0 == before[j].0
                        && sending_entries(nm)[j].1 == (if before[j].0 == file_id@ {
                        spec_finish_file(before[j].1, success)
                    } else {
                        before[j].1
                    }),
            decreases ents.len() - i,
        {
            let k = ents[i].0.clone();
            let f = ents[i].1.clone();
            proof {
                assert(ents.deep_view()[i as int] == (ents@[i as int].0.deep_view(), ents@[
                    i as int].1.deep_view()));
            }
            let nf = if crate::text::str_eq(k.as_str(), file_id.as_str()) {
                SendingFile {
                    index: f.index,
                    file: f.file,
                    status: if success {
                        FileStatus::Finished
                    } else {
                        FileStatus::Failed
                    },
                    path: f.path,
                    token: f.token,
                }
            } else {
                f
            };
            proof {
                assert(!has_key(sending_entries(nm), k@)) by {
                    if has_key(sending_entries(nm), k@) {
                        let j = key_index(sending_entries(nm), k@);
                        assert(before[j].0 == before[i as int].0);
                    }
                }
            }
            lhm_insert(&mut nm, k, nf);
            i += 1;
        }
        self.files = nm;
        proof {
            if has_key(before, file_id@) {
                let ki = key_index(before, file_id@);
                assert(self@ =~= before.update(
                    ki,
                    (before[ki].0, spec_finish_file(before[ki].1, success)),
                ));
            } else {
                assert(self@ =~= before);
            }
        }
    }
}

} // verus!


