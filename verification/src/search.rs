//! Search over source files.
//!
//! A search walks the source files in order: a file whose name contains the
//! query is a title match; a song file whose cached content contains the
//! query is a content match and carries the text around the first place the
//! query occurs. Title matches come first, each group ordered by name.
//! Matching is case-insensitive: both sides are lowercased by the standard
//! library, whose folding is named [`lower_of`] here and not restated.
//! Reading song files off the disk is I/O and happens outside this library;
//! the search works over a cache of contents handed in by the caller.

use vstd::multiset::Multiset;
use vstd::prelude::*;
use vstd::string::StrSliceExecFns;
use vstd::string::StringExecFns;

use crate::sourcefiles::lemma_seq_char_le_refl;
use crate::sourcefiles::lemma_seq_char_le_total;
use crate::sourcefiles::lemma_seq_char_le_trans;
use crate::sourcefiles::seq_char_le;
use crate::sourcefiles::str_eq;
use crate::sourcefiles::str_le;
use crate::sourcefiles::SourceFile;
use crate::sourcefiles::SourceFileType;
use crate::sourcefiles::SourceFileView;

verus! {

/// What `str::to_lowercase` returns for the given characters. The folding
/// is Unicode's and takes pages to state; it depends on the characters
/// alone, so it is carried here as a name.
pub uninterp spec fn lower_of(s: Seq<char>) -> Seq<char>;

/// Relies on `str::to_lowercase` for Unicode case folding; the result
/// depends on the input characters alone.
#[verifier::external_body]
fn lowercase(s: &str) -> (r: String)
    ensures
        r@ == lower_of(s@),
{
    s.to_lowercase()
}

/// Ghost mirror of [`CacheEntry`].
pub ghost struct CacheEntryView {
    pub path: Seq<char>,
    pub content: Seq<char>,
}

/// One cached song file: its path and its text.
#[derive(Debug, PartialEq)]
pub struct CacheEntry {
    pub path: String,
    pub content: String,
}

impl View for CacheEntry {
    type V = CacheEntryView;

    open spec fn view(&self) -> CacheEntryView {
        CacheEntryView { path: self.path@, content: self.content@ }
    }
}

impl DeepView for CacheEntry {
    type V = CacheEntryView;

    open spec fn deep_view(&self) -> CacheEntryView {
        self.view()
    }
}

/// A cache of song file contents, owned by whoever runs searches. Reading
/// the files happens outside this library; the cache only holds what was
/// read.
#[derive(Debug, PartialEq)]
pub struct SearchCache {
    pub entries: Vec<CacheEntry>,
}

/// The content the cache holds for a path: the first entry under that
/// path, from index `k` on.
pub open spec fn cache_lookup(entries: Seq<CacheEntryView>, path: Seq<char>, k: int) -> Option<
    Seq<char>,
>
    decreases entries.len() - k,
{
    if k < 0 || k >= entries.len() {
        None
    } else if entries[k].path == path {
        Some(entries[k].content)
    } else {
        cache_lookup(entries, path, k + 1)
    }
}

impl SearchCache {
    /// An empty cache.
    pub fn new() -> (r: SearchCache)
        ensures
            r.entries.deep_view() == Seq::<CacheEntryView>::empty(),
    {
        let cache = SearchCache { entries: Vec::new() };
        proof {
            assert(cache.entries.deep_view() =~= Seq::<CacheEntryView>::empty());
        }
        cache
    }

    /// Stores the content read for a path.
    pub fn insert(&mut self, path: String, content: String)
        ensures
            final(self).entries.deep_view() == old(self).entries.deep_view().push(
                CacheEntryView { path: path@, content: content@ },
            ),
    {
        let ghost before = self.entries.deep_view();
        let entry = CacheEntry { path, content };
        self.entries.push(entry);
        proof {
            let dv = self.entries.deep_view();
            assert forall|w: int| 0 <= w < before.len() implies dv[w] == before[w] by {
                assert(dv[w] == self.entries@[w]@);
            }
            assert(dv[before.len() as int] == self.entries@[before.len() as int]@);
            assert(dv =~= before.push(dv[before.len() as int]));
        }
    }

    /// The cached content for a path, if any.
    pub fn lookup(&self, path: &str) -> (r: Option<&String>)
        ensures
            (match cache_lookup(self.entries.deep_view(), path@, 0) {
                Some(content) => r matches Some(s) && s@ == content,
                None => r is None,
            }),
    {
        let ghost entries = self.entries.deep_view();
        let n = self.entries.len();
        let mut k: usize = 0;
        while k < n
            invariant
                k <= n,
                n == self.entries@.len(),
                entries == self.entries.deep_view(),
                cache_lookup(entries, path@, 0) == cache_lookup(entries, path@, k as int),
            decreases n - k,
        {
            proof {
                assert(self.entries@[k as int]@ == entries[k as int]);
            }
            if str_eq(self.entries[k].path.as_str(), path) {
                return Some(&self.entries[k].content);
            }
            k = k + 1;
        }
        None
    }
}

/// Empties the search cache, so that later searches see freshly read
/// contents.
pub fn invalidate_search_cache(cache: &mut SearchCache)
    ensures
        final(cache).entries.deep_view() == Seq::<CacheEntryView>::empty(),
{
    cache.entries.clear();
    proof {
        assert(cache.entries.deep_view() =~= Seq::<CacheEntryView>::empty());
    }
}

/// Whether the needle stands in the haystack at position `k`.
pub open spec fn is_match_at(haystack: Seq<char>, needle: Seq<char>, k: int) -> bool {
    0 <= k && k + needle.len() <= haystack.len() && haystack.subrange(k, k + needle.len())
        == needle
}

/// The first position at or after `k` where the needle stands in the
/// haystack, or a negative number if there is none.
pub open spec fn first_match_from(haystack: Seq<char>, needle: Seq<char>, k: int) -> int
    decreases haystack.len() + 1 - k,
{
    if k < 0 || k + needle.len() > haystack.len() {
        -1
    } else if is_match_at(haystack, needle, k) {
        k
    } else {
        first_match_from(haystack, needle, k + 1)
    }
}

/// Every result is ordered with itself.
proof fn lemma_result_le_refl(a: SearchResultView)
    ensures
        result_le(a, a),
{
    lemma_seq_char_le_refl(a.source_file.name);
}

/// Whether the needle stands somewhere in the haystack.
pub open spec fn contains_seq(haystack: Seq<char>, needle: Seq<char>) -> bool {
    first_match_from(haystack, needle, 0) >= 0
}

/// Whether the needle stands in the haystack at position `k`.
fn match_at(haystack: &str, needle: &str, k: usize) -> (r: bool)
    requires
        k + needle@.len() <= haystack@.len(),
        haystack@.len() <= usize::MAX,
    ensures
        r == is_match_at(haystack@, needle@, k as int),
{
    let n = needle.unicode_len();
    let mut i: usize = 0;
    while i < n
        invariant
            i <= n,
            n == needle@.len(),
            k + n <= haystack@.len(),
            haystack@.len() <= usize::MAX,
            forall|j: int| 0 <= j < i ==> haystack@[k + j] == needle@[j],
        decreases n - i,
    {
        if haystack.get_char(k + i) != needle.get_char(i) {
            proof {
                assert(haystack@.subrange(k as int, k + needle@.len())[i as int] != needle@[
                    i as int]);
            }
            return false;
        }
        i = i + 1;
    }
    proof {
        assert(haystack@.subrange(k as int, k + needle@.len()) =~= needle@);
    }
    true
}

/// The first position where the needle stands in the haystack, if any.
fn find_first_match(haystack: &str, needle: &str) -> (r: Option<usize>)
    ensures
        r matches Some(k) ==> first_match_from(haystack@, needle@, 0) == k,
        r is None ==> first_match_from(haystack@, needle@, 0) < 0,
{
    let h_len = haystack.unicode_len();
    let n_len = needle.unicode_len();
    if n_len > h_len {
        return None;
    }
    if n_len == 0 {
        proof {
            assert(haystack@.subrange(0, 0) =~= needle@);
            assert(is_match_at(haystack@, needle@, 0));
        }
        return Some(0);
    }
    let mut k: usize = 0;
    while k <= h_len - n_len
        invariant
            1 <= n_len,
            k <= h_len - n_len + 1,
            h_len == haystack@.len(),
            n_len == needle@.len(),
            n_len <= h_len,
            first_match_from(haystack@, needle@, 0) == first_match_from(
                haystack@,
                needle@,
                k as int,
            ),
        decreases h_len - n_len + 1 - k,
    {
        if match_at(haystack, needle, k) {
            return Some(k);
        }
        k = k + 1;
    }
    None
}

/// Ghost mirror of [`SearchResult`].
pub ghost struct SearchResultView {
    pub source_file: SourceFileView,
    pub matched_content: Option<Seq<char>>,
    pub is_title_match: bool,
}

/// One search hit: the file, the text around the first content match when
/// the hit came from the content, and whether it came from the title.
#[derive(Debug, PartialEq)]
pub struct SearchResult {
    pub source_file: SourceFile,
    pub matched_content: Option<String>,
    pub is_title_match: bool,
}

impl View for SearchResult {
    type V = SearchResultView;

    open spec fn view(&self) -> SearchResultView {
        SearchResultView {
            source_file: self.source_file@,
            matched_content: match self.matched_content {
                Some(c) => Some(c@),
                None => None,
            },
            is_title_match: self.is_title_match,
        }
    }
}

impl DeepView for SearchResult {
    type V = SearchResultView;

    open spec fn deep_view(&self) -> SearchResultView {
        self.view()
    }
}

/// How many characters of context are shown on each side of a content
/// match.
pub const CONTEXT_CHARS: usize = 30;

/// The text shown for a content match: the characters of the file around
/// the first place the lowercased query occurs in the lowercased content,
/// thirty on each side, clamped to the text.
pub open spec fn match_context(content: Seq<char>, query_len: int, match_index: int) -> Seq<
    char,
> {
    let start = if match_index - 30 > 0 {
        match_index - 30
    } else {
        0
    };
    let clamped_start = if start > content.len() {
        content.len() as int
    } else {
        start
    };
    let end = if match_index + query_len + 30 < content.len() {
        match_index + query_len + 30
    } else {
        content.len() as int
    };
    if clamped_start <= end {
        content.subrange(clamped_start, end)
    } else {
        Seq::<char>::empty()
    }
}

/// The hits one file contributes: a title hit when its lowercased name
/// contains the lowercased query; otherwise, for a song with cached
/// content, a content hit with context when its lowercased content does.
pub open spec fn hits_for_file(
    f: SourceFileView,
    query_lower: Seq<char>,
    cache: Seq<CacheEntryView>,
) -> Seq<SearchResultView> {
    if contains_seq(lower_of(f.name), query_lower) {
        seq![
            SearchResultView { source_file: f, matched_content: None, is_title_match: true },
        ]
    } else if f.file_type == SourceFileType::Song {
        match cache_lookup(cache, f.path, 0) {
            Some(content) => {
                let k = first_match_from(lower_of(content), query_lower, 0);
                if k >= 0 {
                    seq![
                        SearchResultView {
                            source_file: f,
                            matched_content: Some(
                                match_context(content, query_lower.len() as int, k),
                            ),
                            is_title_match: false,
                        },
                    ]
                } else {
                    Seq::<SearchResultView>::empty()
                }
            },
            None => Seq::<SearchResultView>::empty(),
        }
    } else {
        Seq::<SearchResultView>::empty()
    }
}

/// The hits of all files from index `k` on, in file order.
pub open spec fn all_hits(
    files: Seq<SourceFileView>,
    query_lower: Seq<char>,
    cache: Seq<CacheEntryView>,
    k: int,
) -> Seq<SearchResultView>
    decreases files.len() - k,
{
    if k < 0 || k >= files.len() {
        Seq::<SearchResultView>::empty()
    } else {
        hits_for_file(files[k], query_lower, cache) + all_hits(files, query_lower, cache, k + 1)
    }
}

/// The order search results are shown in: title hits before content hits,
/// and by name within each group.
pub open spec fn result_le(a: SearchResultView, b: SearchResultView) -> bool {
    if a.is_title_match != b.is_title_match {
        a.is_title_match
    } else {
        seq_char_le(a.source_file.name, b.source_file.name)
    }
}

/// Any two results are ordered one way or the other.
proof fn lemma_result_le_total(a: SearchResultView, b: SearchResultView)
    ensures
        result_le(a, b) || result_le(b, a),
{
    lemma_seq_char_le_total(a.source_file.name, b.source_file.name);
}

/// The order on results is transitive.
proof fn lemma_result_le_trans(a: SearchResultView, b: SearchResultView, c: SearchResultView)
    requires
        result_le(a, b),
        result_le(b, c),
    ensures
        result_le(a, c),
{
    if a.is_title_match == b.is_title_match && b.is_title_match == c.is_title_match {
        lemma_seq_char_le_trans(a.source_file.name, b.source_file.name, c.source_file.name);
    }
}

/// Compares two results in the order of [`result_le`].
fn result_le_exec(a: &SearchResult, b: &SearchResult) -> (r: bool)
    ensures
        r == result_le(a@, b@),
{
    if a.is_title_match != b.is_title_match {
        a.is_title_match
    } else {
        str_le(a.source_file.name.as_str(), b.source_file.name.as_str())
    }
}

/// The hits a file contributes, as owned values.
fn file_hits(file: &SourceFile, query_lower: &str, cache: &SearchCache) -> (r: Option<
    SearchResult,
>)
    ensures
        (match r {
            Some(hit) => hits_for_file(file@, query_lower@, cache.entries.deep_view())
                == seq![hit@],
            None => hits_for_file(file@, query_lower@, cache.entries.deep_view())
                == Seq::<SearchResultView>::empty(),
        }),
{
    let name_lower = lowercase(file.name.as_str());
    match find_first_match(name_lower.as_str(), query_lower) {
        Some(_) => {
            return Some(
                SearchResult {
                    source_file: file.duplicate(),
                    matched_content: None,
                    is_title_match: true,
                },
            );
        },
        None => {},
    }
    if !matches!(file.file_type, SourceFileType::Song) {
        proof {
            assert(hits_for_file(file@, query_lower@, cache.entries.deep_view())
                =~= Seq::<SearchResultView>::empty());
        }
        return None;
    }
    match cache.lookup(file.path.as_str()) {
        Some(content) => {
            let content_lower = lowercase(content.as_str());
            match find_first_match(content_lower.as_str(), query_lower) {
                Some(match_index) => {
                    let content_len = content.as_str().unicode_len();
                    let query_chars = query_lower.unicode_len();
                    let start: usize = if match_index > CONTEXT_CHARS {
                        match_index - CONTEXT_CHARS
                    } else {
                        0
                    };
                    let clamped_start: usize = if start > content_len {
                        content_len
                    } else {
                        start
                    };
                    let end: usize = if match_index <= usize::MAX - query_chars && match_index
                        + query_chars <= usize::MAX - CONTEXT_CHARS && match_index + query_chars
                        + CONTEXT_CHARS < content_len {
                        match_index + query_chars + CONTEXT_CHARS
                    } else {
                        content_len
                    };
                    let context: String = if clamped_start <= end {
                        String::from_str(content.as_str().substring_char(clamped_start, end))
                    } else {
                        String::new()
                    };
                    proof {
                        assert(context@ == match_context(
                            content@,
                            query_lower@.len() as int,
                            first_match_from(lower_of(content@), query_lower@, 0),
                        ));
                    }
                    Some(
                        SearchResult {
                            source_file: file.duplicate(),
                            matched_content: Some(context),
                            is_title_match: false,
                        },
                    )
                },
                None => {
                    proof {
                        assert(hits_for_file(file@, query_lower@, cache.entries.deep_view())
                            =~= Seq::<SearchResultView>::empty());
                    }
                    None
                },
            }
        },
        None => {
            proof {
                assert(hits_for_file(file@, query_lower@, cache.entries.deep_view())
                    =~= Seq::<SearchResultView>::empty());
            }
            None
        },
    }
}

/// Searches the source files: every file whose lowercased name contains
/// the lowercased query is a title hit, every song whose cached content
/// contains it is a content hit with the text around the first occurrence.
/// The hits are exactly [`all_hits`], ordered with title hits first and by
/// name within each group; an empty query finds nothing.
pub fn search_source_files(
    source_files: &Vec<SourceFile>,
    query: &str,
    cache: &SearchCache,
) -> (r: Vec<SearchResult>)
    ensures
        query@.len() == 0 ==> r.deep_view() == Seq::<SearchResultView>::empty(),
        query@.len() > 0 ==> {
            let hits = all_hits(
                source_files.deep_view(),
                lower_of(query@),
                cache.entries.deep_view(),
                0,
            );
            &&& r.deep_view().to_multiset() == hits.to_multiset()
            &&& (forall|j: int|
                0 <= j && j + 1 < r.deep_view().len() ==> result_le(
                    #[trigger] r.deep_view()[j],
                    r.deep_view()[j + 1],
                ))
        },
{
    broadcast use vstd::seq_lib::group_to_multiset_ensures;

    if query.unicode_len() == 0 {
        let empty: Vec<SearchResult> = Vec::new();
        proof {
            assert(empty.deep_view() =~= Seq::<SearchResultView>::empty());
        }
        return empty;
    }
    let query_lower = lowercase(query);
    let ghost files = source_files.deep_view();
    let ghost entries = cache.entries.deep_view();
    let mut results: Vec<SearchResult> = Vec::new();
    let n = source_files.len();
    let mut i: usize = 0;
    proof {
        assert(all_hits(files, query_lower@, entries, 0) =~= results.deep_view() + all_hits(
            files,
            query_lower@,
            entries,
            0,
        ));
    }
    while i < n
        invariant
            i <= n,
            n == files.len(),
            n == source_files@.len(),
            files == source_files.deep_view(),
            entries == cache.entries.deep_view(),
            query_lower@ == lower_of(query@),
            all_hits(files, query_lower@, entries, 0) == results.deep_view() + all_hits(
                files,
                query_lower@,
                entries,
                i as int,
            ),
        decreases n - i,
    {
        let ghost before = results.deep_view();
        proof {
            assert(source_files@[i as int]@ == files[i as int]);
        }
        match file_hits(&source_files[i], query_lower.as_str(), cache) {
            Some(hit) => {
                let ghost hv = hit@;
                results.push(hit);
                proof {
                    let dv = results.deep_view();
                    assert forall|w: int| 0 <= w < before.len() implies dv[w] == before[w] by {
                        assert(dv[w] == results@[w]@);
                    }
                    assert(dv[before.len() as int] == results@[before.len() as int]@);
                    assert(dv =~= before.push(hv));
                    assert(before + seq![hv] =~= dv);
                }
            },
            None => {
                proof {
                    assert(Seq::<SearchResultView>::empty() + all_hits(
                        files,
                        query_lower@,
                        entries,
                        i + 1,
                    ) =~= all_hits(files, query_lower@, entries, i + 1));
                }
            },
        }
        proof {
            assert(all_hits(files, query_lower@, entries, 0) =~= results.deep_view() + all_hits(
                files,
                query_lower@,
                entries,
                i + 1,
            ));
        }
        i = i + 1;
    }
    proof {
        assert(all_hits(files, query_lower@, entries, n as int)
            =~= Seq::<SearchResultView>::empty());
        assert(results.deep_view() =~= results.deep_view() + Seq::<SearchResultView>::empty());
    }
    let ghost unsorted = results.deep_view();
    let mut remaining = results;
    let mut sorted: Vec<SearchResult> = Vec::new();
    while remaining.len() > 0
        invariant
            forall|j: int|
                0 <= j && j + 1 < sorted.deep_view().len() ==> result_le(
                    #[trigger] sorted.deep_view()[j],
                    sorted.deep_view()[j + 1],
                ),
            forall|a: int, b: int|
                0 <= a < sorted.deep_view().len() && 0 <= b < remaining.deep_view().len()
                    ==> result_le(
                    #[trigger] sorted.deep_view()[a],
                    #[trigger] remaining.deep_view()[b],
                ),
            sorted.deep_view().to_multiset().add(remaining.deep_view().to_multiset())
                == unsorted.to_multiset(),
        decreases remaining.len(),
    {
        let mut m: usize = 0;
        let mut j: usize = 1;
        proof {
            lemma_result_le_refl(remaining.deep_view()[0]);
        }
        while j < remaining.len()
            invariant
                m < j,
                1 <= j <= remaining.len(),
                forall|k: int|
                    0 <= k < j ==> result_le(
                        remaining.deep_view()[m as int],
                        #[trigger] remaining.deep_view()[k],
                    ),
            decreases remaining.len() - j,
        {
            if !result_le_exec(&remaining[m], &remaining[j]) {
                proof {
                    let dv = remaining.deep_view();
                    lemma_result_le_total(dv[m as int], dv[j as int]);
                    lemma_result_le_refl(dv[j as int]);
                    assert forall|k: int| 0 <= k < j + 1 implies result_le(
                        dv[j as int],
                        #[trigger] dv[k],
                    ) by {
                        if k < j {
                            lemma_result_le_trans(dv[j as int], dv[m as int], dv[k]);
                        }
                    }
                }
                m = j;
            } else {
                proof {
                    let dv = remaining.deep_view();
                    lemma_result_le_refl(dv[m as int]);
                }
            }
            j = j + 1;
        }
        let ghost rem_before = remaining.deep_view();
        let ghost sorted_before = sorted.deep_view();
        let x = remaining.remove(m);
        proof {
            assert(x@ == rem_before[m as int]);
            let rem_now = remaining.deep_view();
            assert forall|k: int| 0 <= k < rem_now.len() implies rem_now[k]
                == rem_before.remove(m as int)[k] by {
                assert(rem_now[k] == remaining@[k]@);
            }
            assert(rem_now =~= rem_before.remove(m as int));
            rem_before.to_multiset_ensures();
            assert(rem_before.remove(m as int).to_multiset() =~= rem_before.to_multiset().remove(
                x@,
            ));
            assert(rem_now.to_multiset() == rem_before.to_multiset().remove(x@));
        }
        sorted.push(x);
        proof {
            let dv = sorted.deep_view();
            assert forall|k: int| 0 <= k < sorted_before.len() implies dv[k]
                == sorted_before[k] by {
                assert(dv[k] == sorted@[k]@);
            }
            assert(dv[sorted_before.len() as int] == sorted@[sorted_before.len() as int]@);
            assert(dv =~= sorted_before.push(x@));
            sorted_before.to_multiset_ensures();
            assert(sorted_before.push(x@).to_multiset() =~= sorted_before.to_multiset().insert(
                x@,
            ));
            assert(dv.to_multiset() == sorted_before.to_multiset().insert(x@));
            let rem_now = remaining.deep_view();
            assert forall|k: int| 0 <= k < rem_now.len() implies result_le(
                x@,
                #[trigger] rem_now[k],
            ) by {
                if k < m {
                    assert(rem_now[k] == rem_before[k]);
                } else {
                    assert(rem_now[k] == rem_before[k + 1]);
                }
            }
            assert(rem_before.to_multiset().contains(x@)) by {
                assert(rem_before.contains(x@));
            }
            assert(dv.to_multiset().add(rem_now.to_multiset()) =~= unsorted.to_multiset());
        }
    }
    proof {
        assert(remaining.deep_view().len() == 0);
        assert(remaining.deep_view().to_multiset().len() == 0);
        assert(remaining.deep_view().to_multiset() =~= Multiset::<SearchResultView>::empty());
        assert(sorted.deep_view().to_multiset() =~= unsorted.to_multiset());
    }
    sorted
}

} // verus!
