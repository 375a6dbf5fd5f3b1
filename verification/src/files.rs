//! Files that go with a prompt: the cache of their uploads, and the order in which they
//! are uploaded.

use vstd::prelude::*;

use crate::failure::{AskFailure, AskFailureView};
use crate::reply::outcome_view;
use crate::text::same_text;

verus! {

/// How long an uploaded file is taken to be available, in nanoseconds: 47 hours.
pub const FILE_TTL: u64 = 47 * 3600 * 1_000_000_000;

/// A file that was read from disk.
#[derive(Debug, PartialEq, Eq)]
pub struct ReadFile {
    pub path: String,
    pub data: Vec<u8>,
    pub mime: String,
    pub size: u64,
    pub modified: u64,
}

/// A `ReadFile` over sequences.
pub struct ReadFileView {
    pub path: Seq<char>,
    pub data: Seq<u8>,
    pub mime: Seq<char>,
    pub size: u64,
    pub modified: u64,
}

impl View for ReadFile {
    type V = ReadFileView;

    open spec fn view(&self) -> ReadFileView {
        ReadFileView {
            path: self.path@,
            data: self.data@,
            mime: self.mime@,
            size: self.size,
            modified: self.modified,
        }
    }
}

impl DeepView for ReadFile {
    type V = ReadFileView;

    open spec fn deep_view(&self) -> ReadFileView {
        self@
    }
}

/// What an upload is cached under: the key it was made with, and the path, the size and
/// the time of change of the file.
#[derive(Debug, PartialEq, Eq)]
pub struct FileCacheKey {
    pub api_key: String,
    pub path: String,
    pub size: u64,
    pub modified: u64,
}

/// A `FileCacheKey` over sequences of characters.
pub struct FileCacheKeyView {
    pub api_key: Seq<char>,
    pub path: Seq<char>,
    pub size: u64,
    pub modified: u64,
}

impl View for FileCacheKey {
    type V = FileCacheKeyView;

    open spec fn view(&self) -> FileCacheKeyView {
        FileCacheKeyView {
            api_key: self.api_key@,
            path: self.path@,
            size: self.size,
            modified: self.modified,
        }
    }
}

impl FileCacheKey {
    /// Whether both keys are the same.
    fn same(&self, other: &FileCacheKey) -> (result: bool)
        ensures
            result == (self@ == other@),
    {
        same_text(self.api_key.as_str(), other.api_key.as_str()) && same_text(
            self.path.as_str(),
            other.path.as_str(),
        ) && self.size == other.size && self.modified == other.modified
    }
}

/// An upload: the URI of the file, and when it was made.
#[derive(Debug, PartialEq, Eq)]
pub struct CachedFile {
    pub uri: String,
    pub at: u64,
}

/// A `CachedFile` over sequences of characters.
pub struct CachedFileView {
    pub uri: Seq<char>,
    pub at: u64,
}

impl View for CachedFile {
    type V = CachedFileView;

    open spec fn view(&self) -> CachedFileView {
        CachedFileView { uri: self.uri@, at: self.at }
    }
}

/// One entry of the cache.
struct CacheEntry {
    key: FileCacheKey,
    file: CachedFile,
}

/// The uploads that may still be available. No two entries have the same key.
pub struct FileCache {
    entries: Vec<CacheEntry>,
}

/// Entry `i` is the one for `key`.
spec fn entry_for(entries: Seq<CacheEntry>, key: FileCacheKeyView, i: int) -> bool {
    0 <= i < entries.len() && entries[i].key@ == key
}

/// No two entries have the same key.
spec fn distinct_keys(entries: Seq<CacheEntry>) -> bool {
    forall|i: int, j: int|
        0 <= i < entries.len() && 0 <= j < entries.len() && i != j ==> #[trigger] entries[i].key@
            != #[trigger] entries[j].key@
}

/// The entries as a map.
spec fn entry_map(entries: Seq<CacheEntry>) -> Map<FileCacheKeyView, CachedFileView> {
    Map::new(
        |key: FileCacheKeyView| exists|i: int| entry_for(entries, key, i),
        |key: FileCacheKeyView| entries[choose|i: int| entry_for(entries, key, i)].file@,
    )
}

impl View for FileCache {
    type V = Map<FileCacheKeyView, CachedFileView>;

    closed spec fn view(&self) -> Map<FileCacheKeyView, CachedFileView> {
        entry_map(self.entries@)
    }
}

/// An upload made at `at` is still taken to be available at `now`. A time before `at`
/// counts as no time having passed.
pub open spec fn fresh(at: u64, now: u64) -> bool {
    now < at || now - at < FILE_TTL
}

/// The uploads of a cache that are available at `now`.
pub open spec fn available(
    cache: Map<FileCacheKeyView, CachedFileView>,
    now: u64,
) -> Map<FileCacheKeyView, CachedFileView> {
    Map::new(
        |key: FileCacheKeyView| cache.dom().contains(key) && fresh(cache[key].at, now),
        |key: FileCacheKeyView| cache[key],
    )
}

/// What a cache answers at `now`: the URI of an upload that is available.
pub open spec fn cached_uri(
    cache: Map<FileCacheKeyView, CachedFileView>,
    key: FileCacheKeyView,
    now: u64,
) -> Option<Seq<char>> {
    if available(cache, now).dom().contains(key) {
        Some(cache[key].uri)
    } else {
        None
    }
}

/// A cache after an upload at `now`: what was no longer available has left it.
pub open spec fn after_upload(
    cache: Map<FileCacheKeyView, CachedFileView>,
    key: FileCacheKeyView,
    uri: Seq<char>,
    now: u64,
) -> Map<FileCacheKeyView, CachedFileView> {
    available(cache, now).insert(key, CachedFileView { uri, at: now })
}

/// Whether an upload is still taken to be available.
fn is_fresh(at: u64, now: u64) -> (result: bool)
    ensures
        result == fresh(at, now),
{
    now < at || now - at < FILE_TTL
}

/// An empty cache.
pub fn file_cache() -> (cache: FileCache)
    ensures
        cache@ == Map::<FileCacheKeyView, CachedFileView>::empty(),
{
    let cache = FileCache { entries: Vec::new() };
    assert(cache@ =~= Map::<FileCacheKeyView, CachedFileView>::empty());
    cache
}

/// With distinct keys, the map holds what each entry holds.
proof fn lemma_entry_in_map(entries: Seq<CacheEntry>, i: int)
    requires
        distinct_keys(entries),
        0 <= i < entries.len(),
    ensures
        entry_map(entries).dom().contains(entries[i].key@),
        entry_map(entries)[entries[i].key@] == entries[i].file@,
{
    let key = entries[i].key@;
    assert(entry_for(entries, key, i));
    let chosen = choose|j: int| entry_for(entries, key, j);
    assert(entry_for(entries, key, chosen));
    assert(chosen == i);
}

impl FileCache {
    #[verifier::type_invariant]
    spec fn wf(self) -> bool {
        distinct_keys(self.entries@)
    }

    /// The URI of an available upload.
    pub fn lookup(&self, key: &FileCacheKey, now: u64) -> (uri: Option<String>)
        ensures
            uri.deep_view() == cached_uri(self@, key@, now),
    {
        proof {
            use_type_invariant(self);
        }
        let mut i: usize = 0;
        while i < self.entries.len()
            invariant
                i <= self.entries.len(),
                distinct_keys(self.entries@),
                forall|j: int| 0 <= j < i ==> (#[trigger] self.entries@[j]).key@ != key@,
            decreases self.entries.len() - i,
        {
            let entry = &self.entries[i];
            if entry.key.same(key) {
                proof {
                    lemma_entry_in_map(self.entries@, i as int);
                }
                return if is_fresh(entry.file.at, now) {
                    Some(entry.file.uri.clone())
                } else {
                    None
                };
            }
            i = i + 1;
        }
        assert(!self@.dom().contains(key@)) by {
            if self@.dom().contains(key@) {
                let j = choose|j: int| entry_for(self.entries@, key@, j);
                assert(entry_for(self.entries@, key@, j));
            }
        }
        None
    }

    /// Notes an upload, and forgets those that are no longer available.
    pub fn store(&mut self, key: FileCacheKey, uri: String, now: u64)
        ensures
            final(self)@ == after_upload(old(self)@, key@, uri@, now),
    {
        proof {
            use_type_invariant(&*self);
        }
        let ghost before = self.entries@;
        let mut current: Vec<CacheEntry> = Vec::new();
        std::mem::swap(&mut current, &mut self.entries);
        let mut kept: Vec<CacheEntry> = Vec::new();
        for entry in it: current
            invariant
                it.seq() == before,
                distinct_keys(before),
                distinct_keys(kept@),
                forall|i: int|
                    0 <= i < kept@.len() ==> {
                        &&& (#[trigger] kept@[i]).key@ != key@
                        &&& fresh(kept@[i].file.at, now)
                        &&& exists|j: int| 0 <= j < it.index() && before[j] == kept@[i]
                    },
                forall|j: int|
                    0 <= j < it.index() && (#[trigger] before[j]).key@ != key@ && fresh(
                        before[j].file.at,
                        now,
                    ) ==> kept@.contains(before[j]),
        {
            let ghost earlier = kept@;
            if is_fresh(entry.file.at, now) && !entry.key.same(&key) {
                kept.push(entry);
                assert(kept@.last() == entry);
                assert forall|j: int|
                    0 <= j < it.index() && earlier.contains(#[trigger] before[j]) implies kept@.contains(
                    before[j]) by {
                    let i = choose|i: int| 0 <= i < earlier.len() && earlier[i] == before[j];
                    assert(kept@[i] == before[j]);
                }
                assert forall|i: int, j: int|
                    0 <= i < kept@.len() && 0 <= j < kept@.len() && i != j implies (
                #[trigger] kept@[i]).key@ != (#[trigger] kept@[j]).key@ by {
                    if i < earlier.len() && j < earlier.len() {
                        assert(earlier[i].key@ != earlier[j].key@);
                    }
                }
            }
        }
        let ghost rest = kept@;
        let added = CacheEntry { key, file: CachedFile { uri, at: now } };
        kept.push(added);
        proof {
            let all = kept@;
            assert(all == rest.push(added));
            assert forall|i: int, j: int|
                0 <= i < all.len() && 0 <= j < all.len() && i != j implies (
            #[trigger] all[i]).key@ != (#[trigger] all[j]).key@ by {
                if i < rest.len() && j < rest.len() {
                    assert(rest[i].key@ != rest[j].key@);
                }
            }
            let result = entry_map(all);
            let expected = after_upload(entry_map(before), key@, uri@, now);
            lemma_entry_in_map(all, rest.len() as int);
            assert forall|k: FileCacheKeyView| #[trigger]
                result.dom().contains(k) implies expected.dom().contains(k) && expected[k]
                == result[k] by {
                let i = choose|i: int| entry_for(all, k, i);
                assert(entry_for(all, k, i));
                lemma_entry_in_map(all, i);
                if i < rest.len() {
                    assert(all[i] == rest[i]);
                    let j = choose|j: int| 0 <= j < before.len() && before[j] == rest[i];
                    lemma_entry_in_map(before, j);
                }
            }
            assert forall|k: FileCacheKeyView| #[trigger]
                expected.dom().contains(k) implies result.dom().contains(k) by {
                if k != key@ {
                    let j = choose|j: int| entry_for(before, k, j);
                    assert(entry_for(before, k, j));
                    lemma_entry_in_map(before, j);
                    assert(rest.contains(before[j]));
                    let i = choose|i: int| 0 <= i < rest.len() && rest[i] == before[j];
                    assert(all[i] == rest[i]);
                    lemma_entry_in_map(all, i);
                }
            }
            assert(result =~= expected);
        }
        self.entries = kept;
    }
}

/// What the upload of a file with this key is cached under.
pub open spec fn cache_key(api_key: Seq<char>, file: ReadFileView) -> FileCacheKeyView {
    FileCacheKeyView { api_key, path: file.path, size: file.size, modified: file.modified }
}

/// What the upload of a file is cached under.
fn key_for(api_key: &str, file_path: &str, size: u64, modified: u64) -> (key: FileCacheKey)
    ensures
        key@ == (FileCacheKeyView { api_key: api_key@, path: file_path@, size, modified }),
{
    FileCacheKey { api_key: api_key.to_owned(), path: file_path.to_owned(), size, modified }
}

/// The URI under which a file is already available for this key, or `None` where it has
/// to be uploaded.
pub fn get_or_upload_file(
    cache: &FileCache,
    api_key: &str,
    file_path: &str,
    size: u64,
    modified: u64,
    now: u64,
) -> (uri: Option<String>)
    ensures
        uri.deep_view() == cached_uri(
            cache@,
            FileCacheKeyView { api_key: api_key@, path: file_path@, size, modified },
            now,
        ),
{
    cache.lookup(&key_for(api_key, file_path, size, modified), now)
}

/// A cache after the outcome of an upload: it notes the URI of one that succeeded, and stays as
/// it is after one that failed.
pub open spec fn after_outcome(
    cache: Map<FileCacheKeyView, CachedFileView>,
    key: FileCacheKeyView,
    outcome: Result<Seq<char>, AskFailureView>,
    now: u64,
) -> Map<FileCacheKeyView, CachedFileView> {
    match outcome {
        Ok(uri) => after_upload(cache, key, uri, now),
        Err(_) => cache,
    }
}

/// Takes the outcome of an upload, and hands it on: where it succeeded, the cache notes it.
pub fn finish_upload(
    cache: &mut FileCache,
    api_key: &str,
    file_path: &str,
    size: u64,
    modified: u64,
    outcome: Result<String, AskFailure>,
    now: u64,
) -> (result: Result<String, AskFailure>)
    ensures
        outcome_view(result) == outcome_view(outcome),
        final(cache)@ == after_outcome(
            old(cache)@,
            FileCacheKeyView { api_key: api_key@, path: file_path@, size, modified },
            outcome_view(outcome),
            now,
        ),
{
    match outcome {
        Ok(uri) => {
            cache.store(key_for(api_key, file_path, size, modified), uri.clone(), now);
            Ok(uri)
        },
        Err(failure) => Err(failure),
    }
}

/// A file that is made available: the URI or the failure, and the cache afterwards. `now` is
/// when the cache is asked. Only where it has no answer is the file uploaded, with this
/// outcome, which is noted at `later`.
pub open spec fn made_available(
    cache: Map<FileCacheKeyView, CachedFileView>,
    key: FileCacheKeyView,
    now: u64,
    outcome: Result<Seq<char>, AskFailureView>,
    later: u64,
) -> (Result<Seq<char>, AskFailureView>, Map<FileCacheKeyView, CachedFileView>) {
    match cached_uri(cache, key, now) {
        Some(uri) => (Ok(uri), cache),
        None => (outcome, after_outcome(cache, key, outcome, later)),
    }
}

/// A file that the cache knows is not uploaded: whatever an upload would come to, the answer is
/// the one of the cache, which stays as it is. A failed upload is reported, and leaves the cache
/// as it was. After a success, from the cache or by an upload, the file is found again with the
/// same URI for as long as the upload is taken to be available, and is not uploaded again.
pub proof fn law_known_file_is_not_uploaded(
    cache: Map<FileCacheKeyView, CachedFileView>,
    key: FileCacheKeyView,
    now: u64,
    outcome: Result<Seq<char>, AskFailureView>,
    later: u64,
    again: u64,
    other_outcome: Result<Seq<char>, AskFailureView>,
    even_later: u64,
)
    ensures
        ({
            let (result, after) = made_available(cache, key, now, outcome, later);
            &&& cached_uri(cache, key, now) matches Some(uri) ==> result == Ok::<
                Seq<char>,
                AskFailureView,
            >(uri) && after == cache
            &&& result is Err ==> result == outcome && after == cache
            &&& result matches Ok(uri) ==> after.dom().contains(key) && after[key].uri == uri && (
            fresh(after[key].at, again) ==> made_available(
                after,
                key,
                again,
                other_outcome,
                even_later,
            ) == (result, after))
        }),
{
}

/// How far the upload of a list of files has come.
#[derive(Debug, PartialEq, Eq)]
pub enum UploadProgress {
    /// The file at this index comes next.
    Next(usize),
    /// All files are available.
    Complete,
    /// A file could not be made available.
    Failed(AskFailure),
}

/// An `UploadProgress` over sequences of characters.
pub enum UploadProgressView {
    Next(nat),
    Complete,
    Failed(AskFailureView),
}

impl View for UploadProgress {
    type V = UploadProgressView;

    open spec fn view(&self) -> UploadProgressView {
        match *self {
            UploadProgress::Next(index) => UploadProgressView::Next(index as nat),
            UploadProgress::Complete => UploadProgressView::Complete,
            UploadProgress::Failed(failure) => UploadProgressView::Failed(failure@),
        }
    }
}

/// The first of the files with their URIs: each URI goes with the type of its file.
pub open spec fn uploads(files: Seq<ReadFileView>, uris: Seq<Seq<char>>) -> Seq<
    (Seq<char>, Seq<char>),
> {
    Seq::new(uris.len(), |i: int| (uris[i], files[i].mime))
}

/// `done` are uploads of the first of the files.
pub open spec fn uploads_of(
    files: Seq<ReadFileView>,
    done: Seq<(Seq<char>, Seq<char>)>,
) -> bool {
    &&& done.len() <= files.len()
    &&& forall|i: int| 0 <= i < done.len() ==> (#[trigger] done[i]).1 == files[i].mime
}

/// What comes after the first `done` of `total` files.
pub open spec fn next_upload(done: nat, total: nat) -> UploadProgressView {
    if done < total {
        UploadProgressView::Next(done)
    } else {
        UploadProgressView::Complete
    }
}

/// What follows on the outcome for a file: the uploads so far, and what comes next.
pub open spec fn upload_next(
    files: Seq<ReadFileView>,
    done: Seq<(Seq<char>, Seq<char>)>,
    outcome: Option<Result<Seq<char>, AskFailureView>>,
) -> (Seq<(Seq<char>, Seq<char>)>, UploadProgressView) {
    match outcome {
        None => (done, next_upload(done.len(), files.len())),
        Some(Ok(uri)) => (
            done.push((uri, files[done.len() as int].mime)),
            next_upload(done.len() + 1, files.len()),
        ),
        Some(Err(failure)) => (done, UploadProgressView::Failed(failure)),
    }
}

/// An outcome, where there is one, over sequences of characters.
pub open spec fn some_outcome_view(outcome: Option<Result<String, AskFailure>>) -> Option<
    Result<Seq<char>, AskFailureView>,
> {
    match outcome {
        None => None,
        Some(known) => Some(outcome_view(known)),
    }
}

/// Decides which file is made available next. `outcome` is what came of the one before, or
/// `None` at the beginning; the first failure ends the matter.
pub fn upload_all_files(
    read_files: &Vec<ReadFile>,
    uploaded: &mut Vec<(String, String)>,
    outcome: Option<Result<String, AskFailure>>,
) -> (progress: UploadProgress)
    requires
        uploads_of(read_files.deep_view(), old(uploaded).deep_view()),
        outcome is Some ==> old(uploaded)@.len() < read_files@.len(),
    ensures
        uploads_of(read_files.deep_view(), final(uploaded).deep_view()),
        (final(uploaded).deep_view(), progress@) == upload_next(
            read_files.deep_view(),
            old(uploaded).deep_view(),
            some_outcome_view(outcome),
        ),
        match outcome {
            None => {
                &&& final(uploaded).deep_view() == old(uploaded).deep_view()
                &&& progress@ == next_upload(old(uploaded)@.len(), read_files@.len())
            },
            Some(Ok(uri)) => {
                &&& final(uploaded).deep_view() == old(uploaded).deep_view().push(
                    (uri@, read_files@[old(uploaded)@.len() as int].mime@),
                )
                &&& progress@ == next_upload(old(uploaded)@.len() + 1, read_files@.len())
            },
            Some(Err(failure)) => {
                &&& final(uploaded).deep_view() == old(uploaded).deep_view()
                &&& progress@ == UploadProgressView::Failed(failure@)
            },
        },
{
    assert(uploaded.deep_view().len() == uploaded.len());
    match outcome {
        None => {},
        Some(Ok(uri)) => {
            let ghost before = uploaded.deep_view();
            let index = uploaded.len();
            uploaded.push((uri, read_files[index].mime.clone()));
            assert(uploaded.deep_view() == before.push((uri@, read_files@[index as int].mime@)));
        },
        Some(Err(failure)) => {
            return UploadProgress::Failed(failure);
        },
    }
    if uploaded.len() < read_files.len() {
        UploadProgress::Next(uploaded.len())
    } else {
        UploadProgress::Complete
    }
}

/// An upload that was noted is found again, for as long as it is taken to be available
/// and no longer.
pub proof fn law_noted_upload_is_found(
    cache: Map<FileCacheKeyView, CachedFileView>,
    key: FileCacheKeyView,
    uri: Seq<char>,
    now: u64,
    later: u64,
)
    ensures
        cached_uri(after_upload(cache, key, uri, now), key, later) == if fresh(now, later) {
            Some(uri)
        } else {
            None
        },
{
}

/// Noting an upload changes no answer for another key, be it of another API key, path,
/// size or time of change: from that moment on, the cache answers as it would have.
pub proof fn law_other_uploads_are_kept(
    cache: Map<FileCacheKeyView, CachedFileView>,
    key: FileCacheKeyView,
    uri: Seq<char>,
    now: u64,
    other: FileCacheKeyView,
    later: u64,
)
    requires
        other != key,
        now <= later,
    ensures
        cached_uri(after_upload(cache, key, uri, now), other, later) == cached_uri(
            cache,
            other,
            later,
        ),
{
}

/// After an upload the cache holds nothing that was no longer available.
pub proof fn law_stale_uploads_leave(
    cache: Map<FileCacheKeyView, CachedFileView>,
    key: FileCacheKeyView,
    uri: Seq<char>,
    now: u64,
    other: FileCacheKeyView,
)
    requires
        after_upload(cache, key, uri, now).dom().contains(other),
    ensures
        fresh(after_upload(cache, key, uri, now)[other].at, now),
{
}

/// An upload made with one API key changes nothing of what is found with another.
pub proof fn law_uploads_belong_to_their_key(
    cache: Map<FileCacheKeyView, CachedFileView>,
    api_key: Seq<char>,
    file: ReadFileView,
    uri: Seq<char>,
    now: u64,
    other_api_key: Seq<char>,
    other_file: ReadFileView,
    later: u64,
)
    requires
        api_key != other_api_key,
        now <= later,
    ensures
        cached_uri(
            after_upload(cache, cache_key(api_key, file), uri, now),
            cache_key(other_api_key, other_file),
            later,
        ) == cached_uri(cache, cache_key(other_api_key, other_file), later),
{
}

/// The uploads that are complete when `upload_all_files` was told the URIs one after the
/// other.
pub open spec fn told_uploads(files: Seq<ReadFileView>, uris: Seq<Seq<char>>) -> Seq<
    (Seq<char>, Seq<char>),
>
    decreases uris.len(),
{
    if uris.len() == 0 {
        Seq::empty()
    } else {
        told_uploads(files, uris.drop_last()).push((uris.last(), files[uris.len() - 1].mime))
    }
}

/// Told the URIs one after the other, `upload_all_files` pairs each of them with the type
/// of the file at its place, and asks for the next file until each has its URI.
pub proof fn law_every_file_gets_its_uri(files: Seq<ReadFileView>, uris: Seq<Seq<char>>)
    requires
        uris.len() <= files.len(),
    ensures
        told_uploads(files, uris) == uploads(files, uris),
        uploads_of(files, told_uploads(files, uris)),
        next_upload(told_uploads(files, uris).len(), files.len()) is Complete <==> uris.len()
            == files.len(),
    decreases uris.len(),
{
    if uris.len() > 0 {
        law_every_file_gets_its_uri(files, uris.drop_last());
    }
    assert(told_uploads(files, uris) =~= uploads(files, uris));
}

/// An upload counts as available for 47 hours, to the nanosecond, and no longer.
pub proof fn law_uploads_last_for_47_hours(at: u64, age: u64)
    requires
        at + age <= u64::MAX,
    ensures
        fresh(at, (at + age) as u64) <==> age < 47 * 3600 * 1_000_000_000,
{
}

/// What a cache answers is what is noted under that very key, API key, path, size and time of
/// change alike, where it is still available, and nothing else.
pub proof fn law_cache_answers_what_it_holds(
    cache: Map<FileCacheKeyView, CachedFileView>,
    key: FileCacheKeyView,
    now: u64,
)
    ensures
        cached_uri(cache, key, now) is Some <==> cache.contains_key(key) && (now < cache[key].at
            || now - cache[key].at < 47 * 3600 * 1_000_000_000),
        cached_uri(cache, key, now) matches Some(uri) ==> uri == cache[key].uri,
{
}

/// A noted upload holds its URI and its time, whatever was held before; others that are
/// available stay as they were.
pub proof fn law_upload_is_noted_whole(
    cache: Map<FileCacheKeyView, CachedFileView>,
    key: FileCacheKeyView,
    uri: Seq<char>,
    now: u64,
    other: FileCacheKeyView,
)
    requires
        other != key,
    ensures
        after_upload(cache, key, uri, now).contains_key(key),
        after_upload(cache, key, uri, now)[key].uri == uri,
        after_upload(cache, key, uri, now)[key].at == now,
        after_upload(cache, key, uri, now).contains_key(other) <==> cache.contains_key(other) && (
        now < cache[other].at || now - cache[other].at < 47 * 3600 * 1_000_000_000),
        after_upload(cache, key, uri, now).contains_key(other) ==> after_upload(
            cache,
            key,
            uri,
            now,
        )[other] == cache[other],
        after_outcome(cache, key, Ok(uri), now) == after_upload(cache, key, uri, now),
{
}

/// After any number of uploads the next file is asked for until there are as many as files.
pub proof fn law_next_file_is_asked_for(done: nat, total: nat)
    ensures
        done < total ==> next_upload(done, total) == UploadProgressView::Next(done),
        done >= total ==> next_upload(done, total) == UploadProgressView::Complete,
{
}

/// What is said of these values is said of all that they hold.
pub proof fn law_cache_views_leave_nothing_out(
    key: FileCacheKey,
    cached: CachedFile,
    api_key: Seq<char>,
    file: ReadFileView,
    failure: AskFailure,
    index: usize,
)
    ensures
        key@.api_key == key.api_key@,
        key@.path == key.path@,
        key@.size == key.size,
        key@.modified == key.modified,
        cached@.uri == cached.uri@,
        cached@.at == cached.at,
        cache_key(api_key, file).api_key == api_key,
        cache_key(api_key, file).path == file.path,
        cache_key(api_key, file).size == file.size,
        cache_key(api_key, file).modified == file.modified,
        UploadProgress::Failed(failure)@ == UploadProgressView::Failed(failure@),
        UploadProgress::Complete@ == UploadProgressView::Complete,
        UploadProgress::Next(index)@ == UploadProgressView::Next(index as nat),
{
}

/// A URI is kept whole, with the type of the file whose turn it was and after those before it, and
/// the next file is asked for as long as there is one; a failure ends the uploads and is handed on
/// as it is.
pub proof fn law_uri_is_kept_with_its_type(
    files: Seq<ReadFileView>,
    done: Seq<(Seq<char>, Seq<char>)>,
    uri: Seq<char>,
    failure: AskFailureView,
)
    requires
        done.len() < files.len(),
    ensures
        ({
            let (after, progress) = upload_next(files, done, Some(Ok(uri)));
            &&& after.len() == done.len() + 1
            &&& after.last().0 == uri
            &&& after.last().1 == files[done.len() as int].mime
            &&& forall|i: int| 0 <= i < done.len() ==> #[trigger] after[i] == done[i]
            &&& done.len() + 1 < files.len() ==> progress == UploadProgressView::Next(
                done.len() + 1,
            )
            &&& done.len() + 1 == files.len() ==> progress == UploadProgressView::Complete
            &&& upload_next(files, done, Some(Err(failure))) == (
                done,
                UploadProgressView::Failed(failure),
            )
            &&& upload_next(files, done, None) == (done, UploadProgressView::Next(done.len()))
        }),
{
}

} // verus!
