use vstd::prelude::*;

use crate::api_error::{refused, ApiError, BAD_REQUEST};
use crate::order::{chars_lt, keys_sorted, sort_by_key, sort_keyed, SortKey};
use crate::paths::{
    extension_of, file_name_of, join_chars, parent_of, path_extension, path_file_name,
    path_has_root, path_join, path_parent, path_starts_with,
};
use crate::queries::{DEFAULT_LIBRARY_LIMIT, MAX_LIBRARY_LIMIT};
use crate::sidecar_store::{sidecar_filename, sidecar_filename_chars};
use crate::text::{
    append_chars, append_str, ascii_lower, chars_eq_str, chars_of, contains_seq, copy_string,
    decimal, decimal_chars, find_chars, lower_chars, owned, slice_chars, string_from_chars,
    trim_chars, trim_ws,
};

verus! {

/// File extensions (lower-cased) counted as media.
pub open spec fn is_media_extension(e: Seq<char>) -> bool {
    ||| e == "mkv"@
    ||| e == "mp4"@
    ||| e == "avi"@
    ||| e == "mov"@
    ||| e == "m4v"@
    ||| e == "wmv"@
    ||| e == "flv"@
    ||| e == "webm"@
    ||| e == "ts"@
    ||| e == "m2ts"@
    ||| e == "mpg"@
    ||| e == "mpeg"@
}

pub fn media_extension(e: &Vec<char>) -> (r: bool)
    ensures
        r == is_media_extension(e@),
{
    chars_eq_str(e, "mkv") || chars_eq_str(e, "mp4") || chars_eq_str(e, "avi") || chars_eq_str(
        e,
        "mov",
    ) || chars_eq_str(e, "m4v") || chars_eq_str(e, "wmv") || chars_eq_str(e, "flv")
        || chars_eq_str(e, "webm") || chars_eq_str(e, "ts") || chars_eq_str(e, "m2ts")
        || chars_eq_str(e, "mpg") || chars_eq_str(e, "mpeg")
}

/// An extension, as the path gives it, that names a media file.
pub open spec fn is_media_ext_opt(e: Option<String>) -> bool {
    match e {
        Some(x) => is_media_extension(ascii_lower(x@)),
        None => false,
    }
}

/// A root's media count is the number of its files whose extension, ASCII
/// lower-cased, is one of mkv, mp4, avi, mov, m4v, wmv, flv, webm, ts, m2ts,
/// mpg or mpeg; files without an extension are not counted.
pub proof fn lemma_media_count_counts_listed_extensions(exts: Seq<Option<String>>)
    ensures
        media_count(exts) == exts.filter(
            |e: Option<String>|
                e is Some && set![
                    "mkv"@,
                    "mp4"@,
                    "avi"@,
                    "mov"@,
                    "m4v"@,
                    "wmv"@,
                    "flv"@,
                    "webm"@,
                    "ts"@,
                    "m2ts"@,
                    "mpg"@,
                    "mpeg"@,
                ].contains(ascii_lower(e->0@)),
        ).len(),
    decreases exts.len(),
{
    reveal(Seq::filter);
    if exts.len() > 0 {
        lemma_media_count_counts_listed_extensions(exts.drop_last());
    }
}

// ---------------------------------------------------------------------------
// Counting media under the library roots
// ---------------------------------------------------------------------------

/// What walking one library root found: the extension of each regular file
/// (`None` where it has none) and the text of each traversal error.
pub struct RootWalk {
    pub root: String,
    pub exists: bool,
    pub file_extensions: Vec<Option<String>>,
    pub errors: Vec<String>,
}

/// Media count and traversal problems of one root.
#[derive(Debug)]
pub struct RootScanSummary {
    pub root: String,
    pub exists: bool,
    pub media_files: u64,
    pub error: Option<String>,
}

/// Media counts of all library roots.
#[derive(Debug)]
pub struct ScanSummary {
    pub roots: Vec<RootScanSummary>,
    pub total_media_files: u64,
}

pub open spec fn media_count(exts: Seq<Option<String>>) -> nat
    decreases exts.len(),
{
    if exts.len() == 0 {
        0
    } else {
        media_count(exts.drop_last()) + if is_media_ext_opt(exts.last()) {
            1nat
        } else {
            0nat
        }
    }
}

pub open spec fn walk_media_count(w: RootWalk) -> nat {
    if w.exists {
        media_count(w.file_extensions@)
    } else {
        0
    }
}

pub open spec fn walk_error(w: RootWalk) -> Option<Seq<char>> {
    if !w.exists {
        Some("path does not exist"@)
    } else if w.errors@.len() == 0 {
        None
    } else {
        Some(
            "encountered "@ + decimal(w.errors@.len()) + " traversal error(s); first: "@
                + w.errors@[0]@,
        )
    }
}

pub open spec fn total_media(walks: Seq<RootWalk>) -> nat
    decreases walks.len(),
{
    if walks.len() == 0 {
        0
    } else {
        total_media(walks.drop_last()) + walk_media_count(walks.last())
    }
}

pub open spec fn total_files(walks: Seq<RootWalk>) -> nat
    decreases walks.len(),
{
    if walks.len() == 0 {
        0
    } else {
        total_files(walks.drop_last()) + walks.last().file_extensions@.len()
    }
}

pub open spec fn summary_matches(s: RootScanSummary, w: RootWalk) -> bool {
    &&& s.root@ == w.root@
    &&& s.exists == w.exists
    &&& s.media_files == walk_media_count(w)
    &&& match s.error {
        Some(e) => walk_error(w) == Some(e@),
        None => walk_error(w) is None,
    }
}

proof fn lemma_media_count_bound(exts: Seq<Option<String>>)
    ensures
        media_count(exts) <= exts.len(),
    decreases exts.len(),
{
    if exts.len() > 0 {
        lemma_media_count_bound(exts.drop_last());
    }
}

proof fn lemma_total_bound(walks: Seq<RootWalk>)
    ensures
        total_media(walks) <= total_files(walks),
    decreases walks.len(),
{
    if walks.len() > 0 {
        lemma_total_bound(walks.drop_last());
        lemma_media_count_bound(walks.last().file_extensions@);
    }
}

fn count_media(exts: &Vec<Option<String>>) -> (r: u64)
    ensures
        r as nat == media_count(exts@),
{
    let mut n: u64 = 0;
    let mut i: usize = 0;
    while i < exts.len()
        invariant
            i <= exts.len(),
            n as nat == media_count(exts@.take(i as int)),
            n <= i,
        decreases exts.len() - i,
    {
        assert(exts@.take(i + 1).drop_last() =~= exts@.take(i as int));
        assert(exts@.take(i + 1).last() == exts@[i as int]);
        if let Some(x) = &exts[i] {
            let xl = lower_chars(&chars_of(x.as_str()));
            if media_extension(&xl) {
                n += 1;
            }
        }
        i += 1;
    }
    assert(exts@.take(exts.len() as int) =~= exts@);
    n
}

/// `scan_root`: a missing root reports "path does not exist"; otherwise the
/// media files are counted and traversal errors reported by number and first
/// message.
pub fn scan_root(w: &RootWalk) -> (r: RootScanSummary)
    ensures
        summary_matches(r, *w),
{
    if !w.exists {
        return RootScanSummary {
            root: copy_string(&w.root),
            exists: false,
            media_files: 0,
            error: Some(owned("path does not exist")),
        };
    }
    let media_files = count_media(&w.file_extensions);
    let error = if w.errors.len() == 0 {
        None
    } else {
        let mut m = chars_of("encountered ");
        let d = decimal_chars(w.errors.len() as u64);
        append_chars(&mut m, &d);
        append_str(&mut m, " traversal error(s); first: ");
        append_str(&mut m, w.errors[0].as_str());
        Some(string_from_chars(&m))
    };
    RootScanSummary { root: copy_string(&w.root), exists: true, media_files, error }
}

/// `scan_library_roots`: one summary per root, in order, and the total.
pub fn scan_library_roots(roots: &Vec<RootWalk>) -> (r: ScanSummary)
    requires
        total_files(roots@) <= u64::MAX,
    ensures
        r.roots@.len() == roots@.len(),
        forall|i: int| 0 <= i < roots@.len() ==> summary_matches(#[trigger] r.roots@[i], roots@[i]),
        r.total_media_files as nat == total_media(roots@),
{
    let mut entries: Vec<RootScanSummary> = Vec::new();
    let mut total: u64 = 0;
    let mut i: usize = 0;
    proof {
        lemma_total_bound(roots@);
    }
    while i < roots.len()
        invariant
            i <= roots.len(),
            total_files(roots@) <= u64::MAX,
            entries@.len() == i,
            forall|k: int| 0 <= k < i ==> summary_matches(#[trigger] entries@[k], roots@[k]),
            total as nat == total_media(roots@.take(i as int)),
        decreases roots.len() - i,
    {
        assert(roots@.take(i + 1).drop_last() =~= roots@.take(i as int));
        assert(roots@.take(i + 1).last() == roots@[i as int]);
        proof {
            lemma_total_bound(roots@.take(i + 1));
            lemma_files_prefix(roots@, i + 1);
        }
        let s = scan_root(&roots[i]);
        total = total + s.media_files;
        entries.push(s);
        i += 1;
    }
    assert(roots@.take(roots.len() as int) =~= roots@);
    ScanSummary { roots: entries, total_media_files: total }
}

proof fn lemma_files_prefix(walks: Seq<RootWalk>, k: int)
    requires
        0 <= k <= walks.len(),
    ensures
        total_files(walks.take(k)) <= total_files(walks),
    decreases walks.len() - k,
{
    if k < walks.len() {
        lemma_files_prefix(walks, k + 1);
        assert(walks.take(k + 1).drop_last() =~= walks.take(k));
    } else {
        assert(walks.take(k) =~= walks);
    }
}

// ---------------------------------------------------------------------------
// Browsing media
// ---------------------------------------------------------------------------

/// Which part of the library to list.
#[derive(Debug)]
pub struct LibraryBrowseOptions {
    pub root_index: Option<usize>,
    pub query: Option<String>,
    pub offset: usize,
    pub limit: usize,
}

impl Default for LibraryBrowseOptions {
    fn default() -> (r: Self)
        ensures
            r.root_index is None,
            r.query is None,
            r.offset == 0,
            r.limit == DEFAULT_LIBRARY_LIMIT,
    {
        LibraryBrowseOptions { root_index: None, query: None, offset: 0, limit: DEFAULT_LIBRARY_LIMIT }
    }
}

/// A media file in a listing.
#[derive(Debug)]
pub struct LibraryMediaItem {
    pub media_path: String,
    pub root: String,
    pub relative_path: String,
    pub file_name: String,
    pub extension: String,
    pub sidecar_path: String,
    pub sidecar_exists: bool,
}

impl SortKey for LibraryMediaItem {
    open spec fn sort_key(&self) -> Seq<char> {
        self.media_path@
    }

    fn sort_key_chars(&self) -> (r: Vec<char>) {
        chars_of(self.media_path.as_str())
    }
}

/// One page of a listing.
#[derive(Debug)]
pub struct LibraryBrowseResult {
    pub total_matches: usize,
    pub offset: usize,
    pub limit: usize,
    pub items: Vec<LibraryMediaItem>,
}

/// A regular file met while walking a root, and whether the sidecar beside
/// it (at `library_sidecar_path`) exists.
pub struct WalkedFile {
    pub media_path: String,
    pub root: String,
    pub sidecar_exists: bool,
}

/// `Path::strip_prefix` of a root from a path that walking the root yielded.
pub open spec fn strip_root(path: Seq<char>, root: Seq<char>) -> Option<Seq<char>> {
    if path == root {
        Some(seq![])
    } else if path_has_root(path, root) && root.len() > 0 && root.last() == '/' {
        Some(path.skip(root.len() as int))
    } else if path_has_root(path, root) {
        Some(path.skip(root.len() as int + 1))
    } else {
        None
    }
}

/// Where the sidecar of a listed media file lives: `.mm.json` beside it.
pub open spec fn spec_library_sidecar_path(media_path: Seq<char>) -> Option<Seq<char>> {
    match path_parent(media_path) {
        Some(p) => Some(path_join(p, sidecar_filename())),
        None => None,
    }
}

pub fn library_sidecar_path(media_path: &str) -> (r: Option<String>)
    ensures
        match r {
            Some(s) => spec_library_sidecar_path(media_path@) == Some(s@),
            None => spec_library_sidecar_path(media_path@) is None,
        },
{
    let p = chars_of(media_path);
    match parent_of(&p) {
        Some(parent) => {
            let name = sidecar_filename_chars();
            let j = join_chars(&parent, &name);
            Some(string_from_chars(&j))
        },
        None => None,
    }
}

/// The search text: trimmed and lower-cased.
pub open spec fn query_text(q: Option<String>) -> Seq<char> {
    match q {
        Some(s) => ascii_lower(trim_ws(s@)),
        None => seq![],
    }
}

pub open spec fn opt_or_empty(o: Option<Seq<char>>) -> Seq<char> {
    match o {
        Some(s) => s,
        None => seq![],
    }
}

/// The listing entry for a walked file, if it is listed: it must have a
/// media extension, match the search text in its name or relative path, and
/// have a parent directory.
pub open spec fn listed(w: WalkedFile, query: Seq<char>) -> bool {
    let name = opt_or_empty(path_file_name(w.media_path@));
    let rel = match strip_root(w.media_path@, w.root@) {
        Some(r) => r,
        None => name,
    };
    &&& path_extension(w.media_path@) matches Some(e) && is_media_extension(ascii_lower(e))
    &&& (query.len() == 0 || contains_seq(ascii_lower(name) + seq![' '] + ascii_lower(rel), query))
    &&& path_parent(w.media_path@) is Some
}

pub open spec fn item_for(item: LibraryMediaItem, w: WalkedFile) -> bool {
    let name = opt_or_empty(path_file_name(w.media_path@));
    &&& item.media_path@ == w.media_path@
    &&& item.root@ == w.root@
    &&& item.relative_path@ == match strip_root(w.media_path@, w.root@) {
        Some(r) => r,
        None => name,
    }
    &&& item.file_name@ == name
    &&& item.extension@ == ascii_lower(opt_or_empty(path_extension(w.media_path@)))
    &&& Some(item.sidecar_path@) == spec_library_sidecar_path(w.media_path@)
    &&& item.sidecar_exists == w.sidecar_exists
}

/// The walked files that are listed, in walk order.
pub open spec fn listed_files(walked: Seq<WalkedFile>, query: Seq<char>) -> Seq<WalkedFile>
    decreases walked.len(),
{
    if walked.len() == 0 {
        seq![]
    } else {
        let r = listed_files(walked.drop_last(), query);
        if listed(walked.last(), query) {
            r.push(walked.last())
        } else {
            r
        }
    }
}

/// The root index names no configured root.
pub open spec fn bad_root_index(root_index: Option<usize>, root_count: usize) -> bool {
    match root_index {
        Some(i) => i >= root_count,
        None => false,
    }
}

pub open spec fn effective_limit(limit: usize) -> usize {
    if limit == 0 {
        DEFAULT_LIBRARY_LIMIT
    } else if limit < MAX_LIBRARY_LIMIT {
        limit
    } else {
        MAX_LIBRARY_LIMIT
    }
}

fn strip_root_chars(path: &Vec<char>, root: &Vec<char>) -> (r: Option<Vec<char>>)
    ensures
        match r {
            Some(v) => strip_root(path@, root@) == Some(v@),
            None => strip_root(path@, root@) is None,
        },
{
    if crate::text::chars_eq(path, root) {
        return Some(Vec::new());
    }
    if !path_starts_with(path, root) {
        return None;
    }
    if root.len() > 0 && root[root.len() - 1] == '/' {
        Some(slice_chars(path, root.len(), path.len()))
    } else {
        Some(slice_chars(path, root.len() + 1, path.len()))
    }
}

fn listing_item(w: &WalkedFile, query: &Vec<char>) -> (r: Option<LibraryMediaItem>)
    ensures
        match r {
            Some(item) => listed(*w, query@) && item_for(item, *w),
            None => !listed(*w, query@),
        },
{
    let p = chars_of(w.media_path.as_str());
    let ext = match extension_of(&p) {
        Some(e) => lower_chars(&e),
        None => {
            return None;
        },
    };
    if !media_extension(&ext) {
        return None;
    }
    let name = match file_name_of(&p) {
        Some(n) => n,
        None => Vec::new(),
    };
    let root = chars_of(w.root.as_str());
    let rel = match strip_root_chars(&p, &root) {
        Some(r) => r,
        None => crate::text::copy_chars(&name),
    };
    if query.len() > 0 {
        let mut hay = lower_chars(&name);
        hay.push(' ');
        let rl = lower_chars(&rel);
        append_chars(&mut hay, &rl);
        proof {
            let h = ascii_lower(opt_or_empty(path_file_name(w.media_path@))) + seq![' ']
                + ascii_lower(rel@);
            assert(hay@ =~= h);
        }
        if find_chars(&hay, query).is_none() {
            return None;
        }
    }
    let sidecar = match library_sidecar_path(w.media_path.as_str()) {
        Some(s) => s,
        None => {
            return None;
        },
    };
    Some(
        LibraryMediaItem {
            media_path: copy_string(&w.media_path),
            root: copy_string(&w.root),
            relative_path: string_from_chars(&rel),
            file_name: string_from_chars(&name),
            extension: string_from_chars(&ext),
            sidecar_path: sidecar,
            sidecar_exists: w.sidecar_exists,
        },
    )
}

/// `list_library_media` over the files that walking the chosen roots
/// yielded (`walked`): the listed files as items, sorted by media path, then
/// `offset` items skipped and at most the page limit kept.  A root index
/// that names no root is refused; with no roots the listing is empty.
pub fn list_library_media(root_count: usize, options: &LibraryBrowseOptions, walked: &Vec<
    WalkedFile,
>) -> (r: Result<LibraryBrowseResult, String>)
    ensures
        root_count > 0 ==> match options.root_index {
            Some(idx) => idx >= root_count ==> (r matches Err(m) && m@ == "invalid root_index: "@
                + decimal(idx as nat)),
            None => true,
        },
        root_count == 0 ==> (r matches Ok(res) && res.total_matches == 0 && res.items@.len() == 0
            && res.offset == options.offset && res.limit == effective_limit(options.limit)),
        r is Ok ==> (root_count == 0 || !bad_root_index(options.root_index, root_count)),
        (root_count > 0 && !bad_root_index(options.root_index, root_count)) ==> (
        r matches Ok(res) && {
            let files = listed_files(walked@, query_text(options.query));
            let page_start = if options.offset < files.len() {
                options.offset as int
            } else {
                files.len() as int
            };
            let page_end = if page_start + effective_limit(options.limit) < files.len() {
                page_start + effective_limit(options.limit)
            } else {
                files.len() as int
            };
            &&& res.total_matches == files.len()
            &&& res.offset == options.offset
            &&& res.limit == effective_limit(options.limit)
            &&& keys_sorted(res.items@)
            &&& exists|all: Seq<LibraryMediaItem>|
                {
                    &&& all.len() == files.len()
                    &&& forall|k: int| 0 <= k < all.len() ==> item_for(#[trigger] all[k], files[k])
                    &&& res.items@ == sort_keyed(all).subrange(page_start, page_end)
                }
        }),
{
    let limit = crate::queries::normalize_library_limit(Some(options.limit));
    if root_count == 0 {
        return Ok(LibraryBrowseResult { total_matches: 0, offset: options.offset, limit, items: Vec::new() });
    }
    if let Some(idx) = options.root_index {
        if idx >= root_count {
            let mut m = chars_of("invalid root_index: ");
            let d = decimal_chars(idx as u64);
            append_chars(&mut m, &d);
            return Err(string_from_chars(&m));
        }
    }
    let query = match &options.query {
        Some(q) => lower_chars(&trim_chars(&chars_of(q.as_str()))),
        None => Vec::new(),
    };
    let ghost qt = query_text(options.query);
    assert(query@ == qt);
    let mut all: Vec<LibraryMediaItem> = Vec::new();
    let mut i: usize = 0;
    while i < walked.len()
        invariant
            i <= walked.len(),
            query@ == qt,
            all@.len() == listed_files(walked@.take(i as int), qt).len(),
            forall|k: int|
                0 <= k < all@.len() ==> item_for(
                    #[trigger] all@[k],
                    listed_files(walked@.take(i as int), qt)[k],
                ),
        decreases walked.len() - i,
    {
        assert(walked@.take(i + 1).drop_last() =~= walked@.take(i as int));
        assert(walked@.take(i + 1).last() == walked@[i as int]);
        let ghost before = listed_files(walked@.take(i as int), qt);
        match listing_item(&walked[i], &query) {
            Some(item) => {
                all.push(item);
                assert forall|k: int| 0 <= k < all@.len() implies item_for(
                    #[trigger] all@[k],
                    listed_files(walked@.take(i + 1), qt)[k],
                ) by {
                    if k < before.len() {
                        assert(listed_files(walked@.take(i + 1), qt)[k] == before[k]);
                    }
                }
            },
            None => {},
        }
        i += 1;
    }
    assert(walked@.take(walked.len() as int) =~= walked@);
    let ghost unsorted = all@;
    let total = all.len();
    let sorted = sort_by_key(all);
    let start = if options.offset < total {
        options.offset
    } else {
        total
    };
    let end = if limit < total - start {
        start + limit
    } else {
        total
    };
    let ghost s_all = sorted@;
    proof {
        crate::order::lemma_sort_keyed_sorted(unsorted);
    }
    let mut page = sorted;
    page.truncate(end);
    let items = page.split_off(start);
    proof {
        assert(items@ =~= s_all.subrange(start as int, end as int));
        assert forall|a: int, b: int| 0 <= a < b < items@.len() implies !crate::order::text_lt(
            #[trigger] items@[b].sort_key(),
            #[trigger] items@[a].sort_key(),
        ) by {
            assert(items@[a] == s_all[start + a] && items@[b] == s_all[start + b]);
        }
    }
    Ok(LibraryBrowseResult { total_matches: total, offset: options.offset, limit, items })
}


/// `library_items`: a root index must name a configured root (400 otherwise).
pub fn check_root_index(root_count: usize, root_index: Option<usize>) -> (r: Result<(), ApiError>)
    ensures
        match root_index {
            Some(i) if i >= root_count => refused(r, BAD_REQUEST, "root_index "@ + decimal(i as nat) + " is out of bounds"@),
            _ => r is Ok,
        },
{
    match root_index {
        Some(i) => if i >= root_count {
            let mut m = chars_of("root_index ");
            let d = decimal_chars(i as u64);
            append_chars(&mut m, &d);
            append_str(&mut m, " is out of bounds");
            Err(ApiError { status: BAD_REQUEST, message: string_from_chars(&m) })
        } else {
            Ok(())
        },
        None => Ok(()),
    }
}

} // verus!
