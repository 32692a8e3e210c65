use vstd::prelude::*;

use crate::paths::{
    file_name_of, join_chars, parent_of, path_file_name, path_join, path_parent,
};
use crate::text::{
    append_chars, append_str, chars_eq, chars_of, copy_chars, decimal, decimal_chars, is_ws,
    string_from_chars, trim_chars, trim_ws,
};

verus! {

/// Longest file-name component, in bytes.
pub const MAX_PATH_COMPONENT_BYTES: usize = 255;

/// Longest path, in bytes.
pub const MAX_PATH_BYTES: usize = 4096;

/// Bytes of one character in UTF-8.
pub open spec fn char_bytes(c: char) -> nat {
    if (c as u32) < 0x80 {
        1
    } else if (c as u32) < 0x800 {
        2
    } else if (c as u32) < 0x10000 {
        3
    } else {
        4
    }
}

/// Length in bytes of a text in UTF-8 (`str::len`).
pub open spec fn byte_len(s: Seq<char>) -> nat
    decreases s.len(),
{
    if s.len() == 0 {
        0
    } else {
        byte_len(s.drop_last()) + char_bytes(s.last())
    }
}

proof fn lemma_byte_len_prefix(s: Seq<char>, i: int)
    requires
        0 <= i <= s.len(),
    ensures
        byte_len(s.take(i)) <= byte_len(s),
    decreases s.len() - i,
{
    if i < s.len() {
        lemma_byte_len_prefix(s, i + 1);
        assert(s.take(i + 1).drop_last() =~= s.take(i));
    } else {
        assert(s.take(i) =~= s);
    }
}

/// Whether `v` takes at most `limit` bytes in UTF-8.
pub fn byte_len_at_most(v: &Vec<char>, limit: usize) -> (r: bool)
    ensures
        r == (byte_len(v@) <= limit),
{
    let mut n: usize = 0;
    let mut i: usize = 0;
    while i < v.len()
        invariant
            i <= v.len(),
            n as nat == byte_len(v@.take(i as int)),
            n <= limit,
        decreases v.len() - i,
    {
        assert(v@.take(i + 1).drop_last() =~= v@.take(i as int));
        assert(v@.take(i + 1).last() == v@[i as int]);
        let c = v[i] as u32;
        let w: usize = if c < 0x80 {
            1
        } else if c < 0x800 {
            2
        } else if c < 0x10000 {
            3
        } else {
            4
        };
        if w > limit - n {
            proof {
                lemma_byte_len_prefix(v@, i + 1);
            }
            return false;
        }
        n = n + w;
        i += 1;
    }
    assert(v@.take(v.len() as int) =~= v@);
    true
}

/// `Path::with_file_name`: the last component replaced by `name` (appended
/// when there is none); an absolute `name` takes the path's place, as
/// `Path::join` has it.
pub open spec fn with_file_name(p: Seq<char>, name: Seq<char>) -> Seq<char> {
    match (path_file_name(p), path_parent(p)) {
        (Some(_), Some(parent)) => path_join(parent, name),
        _ => path_join(p, name),
    }
}

pub fn with_file_name_chars(p: &Vec<char>, name: &Vec<char>) -> (r: Vec<char>)
    ensures
        r@ == with_file_name(p@, name@),
{
    match file_name_of(p) {
        Some(_) => match parent_of(p) {
            Some(parent) => join_chars(&parent, name),
            None => join_chars(p, name),
        },
        None => join_chars(p, name),
    }
}

/// `rename_stem_fits_limits`: the stem and the file name fit one component
/// and the whole target path fits the path limit.
pub open spec fn stem_fits(parent: Seq<char>, move_parent: bool, stem: Seq<char>, ext: Seq<char>) -> bool {
    let file_name = stem + ext;
    let target_parent = if move_parent {
        with_file_name(parent, stem)
    } else {
        parent
    };
    &&& byte_len(stem) <= MAX_PATH_COMPONENT_BYTES
    &&& byte_len(file_name) <= MAX_PATH_COMPONENT_BYTES
    &&& byte_len(path_join(target_parent, file_name)) <= MAX_PATH_BYTES
}

pub fn rename_stem_fits_limits(parent: &Vec<char>, move_parent: bool, stem: &Vec<char>, ext: &Vec<
    char,
>) -> (r: bool)
    ensures
        r == stem_fits(parent@, move_parent, stem@, ext@),
{
    if !byte_len_at_most(stem, MAX_PATH_COMPONENT_BYTES) {
        return false;
    }
    let mut file_name = copy_chars(stem);
    append_chars(&mut file_name, ext);
    if !byte_len_at_most(&file_name, MAX_PATH_COMPONENT_BYTES) {
        return false;
    }
    let target_parent = if move_parent {
        with_file_name_chars(parent, stem)
    } else {
        copy_chars(parent)
    };
    let target = join_chars(&target_parent, &file_name);
    byte_len_at_most(&target, MAX_PATH_BYTES)
}

/// White space, dashes and underscores, trimmed from the end of a truncated title.
pub open spec fn is_trailing_junk(c: char) -> bool {
    is_ws(c) || c == '-' || c == '_'
}

pub open spec fn trim_end_junk(s: Seq<char>) -> Seq<char>
    decreases s.len(),
{
    if s.len() > 0 && is_trailing_junk(s.last()) {
        trim_end_junk(s.drop_last())
    } else {
        s
    }
}

/// The title tried after `c`: its last character dropped and trailing junk
/// trimmed, "untitled" once nothing is left.
pub open spec fn next_candidate(c: Seq<char>) -> Seq<char> {
    let t = if c.len() == 0 {
        c
    } else {
        trim_end_junk(c.drop_last())
    };
    if t.len() == 0 {
        "untitled"@
    } else {
        t
    }
}

/// The `k`-th title tried.
pub open spec fn candidate_at(c0: Seq<char>, k: nat) -> Seq<char>
    decreases k,
{
    if k == 0 {
        c0
    } else {
        next_candidate(candidate_at(c0, (k - 1) as nat))
    }
}

/// " (<year>)" when the year is known.
pub open spec fn year_suffix(year: Option<u16>) -> Seq<char> {
    match year {
        Some(y) => " ("@ + decimal(y as nat) + ")"@,
        None => seq![],
    }
}

pub open spec fn candidate_fits(
    parent: Seq<char>,
    move_parent: bool,
    c0: Seq<char>,
    k: nat,
    suffix: Seq<char>,
    ext: Seq<char>,
) -> bool {
    stem_fits(parent, move_parent, candidate_at(c0, k) + suffix, ext)
}

proof fn lemma_candidates_repeat(c0: Seq<char>, a: nat, b: nat, j: nat)
    requires
        a < b,
        candidate_at(c0, a) == candidate_at(c0, b),
    ensures
        candidate_at(c0, a + j) == candidate_at(c0, b + j),
    decreases j,
{
    if j > 0 {
        lemma_candidates_repeat(c0, a, b, (j - 1) as nat);
        assert(candidate_at(c0, a + j) == next_candidate(candidate_at(c0, (a + j - 1) as nat)));
        assert(candidate_at(c0, b + j) == next_candidate(candidate_at(c0, (b + j - 1) as nat)));
    }
}

/// Once the sequence returns to an earlier title it repeats that stretch:
/// every later title is one of those between the two.
proof fn lemma_candidates_cycle(c0: Seq<char>, a: nat, b: nat, k: nat)
    requires
        a < b <= k,
        candidate_at(c0, a) == candidate_at(c0, b),
    ensures
        exists|m: nat| a <= m < b && #[trigger] candidate_at(c0, m) == candidate_at(c0, k),
    decreases k,
{
    let d = (b - a) as nat;
    if k - d < b {
        let m = (k - d) as nat;
        lemma_candidates_repeat(c0, a, b, (m - a) as nat);
        assert(candidate_at(c0, m) == candidate_at(c0, k));
    } else {
        lemma_candidates_cycle(c0, a, b, (k - d) as nat);
        lemma_candidates_repeat(c0, a, b, (k - d - a) as nat);
        assert(candidate_at(c0, (k - d) as nat) == candidate_at(c0, k));
    }
}

fn trim_end_junk_chars(v: &Vec<char>) -> (r: Vec<char>)
    ensures
        r@ == trim_end_junk(v@),
{
    let mut end = v.len();
    assert(v@.take(v.len() as int) =~= v@);
    while end > 0 && (crate::text::char_is_whitespace(v[end - 1]) || v[end - 1] == '-' || v[end
        - 1] == '_')
        invariant
            end <= v.len(),
            trim_end_junk(v@) == trim_end_junk(v@.take(end as int)),
        decreases end,
    {
        assert(v@.take(end as int).drop_last() =~= v@.take(end - 1));
        end -= 1;
    }
    assert(v@.take(v.len() as int) =~= v@);
    crate::text::slice_chars(v, 0, end)
}

proof fn lemma_trim_end_junk_len(s: Seq<char>)
    ensures
        trim_end_junk(s).len() <= s.len(),
    decreases s.len(),
{
    if s.len() > 0 && is_trailing_junk(s.last()) {
        lemma_trim_end_junk_len(s.drop_last());
    }
}

fn next_candidate_chars(c: &Vec<char>) -> (r: (Vec<char>, bool))
    ensures
        r.0@ == next_candidate(c@),
        r.1 == (next_candidate(c@) == "untitled"@ && (c@.len() == 0 || trim_end_junk(
            c@.drop_last(),
        ).len() == 0)),
{
    let t = if c.len() == 0 {
        Vec::new()
    } else {
        let mut d = copy_chars(c);
        d.pop();
        assert(d@ =~= c@.drop_last());
        trim_end_junk_chars(&d)
    };
    assert(c@.len() == 0 ==> t@ =~= c@);
    if t.len() == 0 {
        (chars_of("untitled"), true)
    } else {
        (t, false)
    }
}

fn year_suffix_chars(year: Option<u16>) -> (r: Vec<char>)
    ensures
        r@ == year_suffix(year),
{
    match year {
        Some(y) => {
            let mut v = chars_of(" (");
            let d = decimal_chars(y as u64);
            append_chars(&mut v, &d);
            append_str(&mut v, ")");
            v
        },
        None => Vec::new(),
    }
}

/// `build_rename_stem_with_limits`: "<title> (<year>)", the title shortened
/// one character at a time (trailing spaces, dashes and underscores dropped,
/// "untitled" when nothing is left) until the stem fits the limits; the flag
/// tells whether it was shortened.  A blank title is refused, and so is a
/// title that no shortening makes fit.
pub open spec fn spec_build_rename_stem(
    parent: Seq<char>,
    move_parent: bool,
    title: Seq<char>,
    year: Option<u16>,
    ext: Seq<char>,
) -> Result<(Seq<char>, bool), Seq<char>> {
    let c0 = trim_ws(title);
    let suffix = year_suffix(year);
    if c0.len() == 0 {
        Err("rename target stem is empty after normalization"@)
    } else if exists|k: nat| candidate_fits(parent, move_parent, c0, k, suffix, ext) {
        let k = choose|k: nat|
            candidate_fits(parent, move_parent, c0, k, suffix, ext) && forall|j: nat|
                j < k ==> !candidate_fits(parent, move_parent, c0, j, suffix, ext);
        Ok((candidate_at(c0, k) + suffix, k > 0))
    } else {
        Err("rename target exceeds filesystem limits and cannot be truncated safely"@)
    }
}

proof fn lemma_first_fit_unique(
    parent: Seq<char>,
    move_parent: bool,
    c0: Seq<char>,
    k: nat,
    suffix: Seq<char>,
    ext: Seq<char>,
)
    requires
        candidate_fits(parent, move_parent, c0, k, suffix, ext),
        forall|j: nat| j < k ==> !candidate_fits(parent, move_parent, c0, j, suffix, ext),
    ensures
        (choose|k2: nat|
            candidate_fits(parent, move_parent, c0, k2, suffix, ext) && forall|j: nat|
                j < k2 ==> !candidate_fits(parent, move_parent, c0, j, suffix, ext)) == k,
{
    let k2 = choose|k2: nat|
        candidate_fits(parent, move_parent, c0, k2, suffix, ext) && forall|j: nat|
            j < k2 ==> !candidate_fits(parent, move_parent, c0, j, suffix, ext);
    assert(candidate_fits(parent, move_parent, c0, k2, suffix, ext) && forall|j: nat|
        j < k2 ==> !candidate_fits(parent, move_parent, c0, j, suffix, ext));
    if k2 < k {
        assert(!candidate_fits(parent, move_parent, c0, k2, suffix, ext));
    } else if k2 > k {
        assert(!candidate_fits(parent, move_parent, c0, k, suffix, ext));
    }
}

pub fn build_rename_stem_with_limits(
    parent: &Vec<char>,
    move_parent: bool,
    title: &Vec<char>,
    year: Option<u16>,
    ext: &Vec<char>,
) -> (r: Result<(Vec<char>, bool), String>)
    ensures
        match (r, spec_build_rename_stem(parent@, move_parent, title@, year, ext@)) {
            (Ok((s, t)), Ok((s2, t2))) => s@ == s2 && t == t2,
            (Err(m), Err(m2)) => m@ == m2,
            _ => false,
        },
{
    let suffix = year_suffix_chars(year);
    let mut cand = trim_chars(title);
    let ghost c0 = cand@;
    if cand.len() == 0 {
        return Err(crate::text::owned("rename target stem is empty after normalization"));
    }
    let ghost mut k: nat = 0;
    let ghost mut first_reset: nat = 0;
    let mut resets: usize = 0;
    let mut truncated = false;
    loop
        invariant
            truncated == (k > 0),
            c0 == trim_ws(title@),
            c0.len() > 0,
            suffix@ == year_suffix(year),
            cand@ == candidate_at(c0, k),
            cand@.len() > 0,
            resets <= 1,
            resets == 1 ==> first_reset <= k && candidate_at(c0, first_reset) == "untitled"@,
            forall|j: nat| j < k ==> !candidate_fits(parent@, move_parent, c0, j, suffix@, ext@),
        decreases 2 - resets, cand@.len(),
    {
        let mut stem = copy_chars(&cand);
        append_chars(&mut stem, &suffix);
        if rename_stem_fits_limits(parent, move_parent, &stem, ext) {
            assert(stem@ =~= candidate_at(c0, k) + suffix@);
            assert(candidate_fits(parent@, move_parent, c0, k, suffix@, ext@));
            proof {
                lemma_first_fit_unique(parent@, move_parent, c0, k, suffix@, ext@);
            }
            return Ok((stem, truncated));
        }
        let (next, reset) = next_candidate_chars(&cand);
        proof {
            k = k + 1;
        }
        truncated = true;
        if reset {
            if resets == 1 {
                proof {
                    assert forall|j: nat| !candidate_fits(parent@, move_parent, c0, j, suffix@, ext@) by {
                        if j >= k {
                            lemma_candidates_cycle(c0, first_reset, k, j);
                            let m = choose|m: nat|
                                first_reset <= m < k && #[trigger] candidate_at(c0, m)
                                    == candidate_at(c0, j);
                            assert(!candidate_fits(parent@, move_parent, c0, m, suffix@, ext@));
                        }
                    }
                }
                return Err(
                    crate::text::owned(
                        "rename target exceeds filesystem limits and cannot be truncated safely",
                    ),
                );
            }
            resets = 1;
            proof {
                first_reset = k;
            }
        } else {
            proof {
                lemma_trim_end_junk_len(cand@.drop_last());
            }
            assert(next@.len() < cand@.len());
        }
        cand = next;
        proof {
            reveal_strlit("untitled");
        }
    }
}

// ---------------------------------------------------------------------------
// Rename targets
// ---------------------------------------------------------------------------

/// Extensions (lower-cased) of the media files that make a folder a movie folder.
pub open spec fn is_folder_media_ext(e: Seq<char>) -> bool {
    ||| e == "mkv"@
    ||| e == "mp4"@
    ||| e == "avi"@
    ||| e == "mov"@
    ||| e == "wmv"@
    ||| e == "m4v"@
    ||| e == "mpg"@
    ||| e == "mpeg"@
    ||| e == "ts"@
    ||| e == "m2ts"@
    ||| e == "webm"@
}

/// Media files among a folder's regular files, given their extensions.
pub open spec fn folder_media_count(exts: Seq<Option<String>>) -> nat
    decreases exts.len(),
{
    if exts.len() == 0 {
        0
    } else {
        folder_media_count(exts.drop_last()) + match exts.last() {
            Some(e) => if is_folder_media_ext(crate::text::ascii_lower(e@)) {
                1nat
            } else {
                0nat
            },
            None => 0nat,
        }
    }
}

/// A folder's media files are those whose extension, ASCII lower-cased, is
/// one of mkv, mp4, avi, mov, wmv, m4v, mpg, mpeg, ts, m2ts or webm.
pub proof fn lemma_folder_media_count_counts_listed_extensions(exts: Seq<Option<String>>)
    ensures
        folder_media_count(exts) == exts.filter(
            |e: Option<String>|
                e is Some && set![
                    "mkv"@,
                    "mp4"@,
                    "avi"@,
                    "mov"@,
                    "wmv"@,
                    "m4v"@,
                    "mpg"@,
                    "mpeg"@,
                    "ts"@,
                    "m2ts"@,
                    "webm"@,
                ].contains(crate::text::ascii_lower(e->0@)),
        ).len(),
    decreases exts.len(),
{
    reveal(Seq::filter);
    if exts.len() > 0 {
        lemma_folder_media_count_counts_listed_extensions(exts.drop_last());
    }
}

/// A named folder that holds a single media file (of any listed extension,
/// in any case) and whose name differs from the canonical stem is moved into
/// the canonical folder, whether or not multi-file folders may be renamed.
pub proof fn lemma_single_media_file_folder_moves(
    parent: Seq<char>,
    canonical_stem: Seq<char>,
    allow_multi: bool,
    file_ext: String,
)
    requires
        path_file_name(parent) is Some,
        set![
            "mkv"@,
            "mp4"@,
            "avi"@,
            "mov"@,
            "wmv"@,
            "m4v"@,
            "mpg"@,
            "mpeg"@,
            "ts"@,
            "m2ts"@,
            "webm"@,
        ].contains(crate::text::ascii_lower(file_ext@)),
        crate::text::ascii_lower(canonical_name(path_file_name(parent)->0)) != crate::text::ascii_lower(
            canonical_name(canonical_stem),
        ),
    ensures
        folder_media_count(seq![Some(file_ext)]) == 1,
        spec_should_move(parent, canonical_stem, allow_multi, Some(seq![Some(file_ext)])),
{
    let files = seq![Some(file_ext)];
    assert(files.drop_last() =~= Seq::<Option<String>>::empty());
    assert(files.last() == Some(file_ext));
    assert(folder_media_count(files.drop_last()) == 0);
    assert(is_folder_media_ext(crate::text::ascii_lower(file_ext@)));
}

fn count_folder_media(exts: &Vec<Option<String>>) -> (r: usize)
    ensures
        r as nat == folder_media_count(exts@),
{
    let mut n: usize = 0;
    let mut i: usize = 0;
    while i < exts.len()
        invariant
            i <= exts.len(),
            n as nat == folder_media_count(exts@.take(i as int)),
            n <= i,
        decreases exts.len() - i,
    {
        assert(exts@.take(i + 1).drop_last() =~= exts@.take(i as int));
        assert(exts@.take(i + 1).last() == exts@[i as int]);
        if let Some(e) = &exts[i] {
            let l = crate::text::lower_chars(&chars_of(e.as_str()));
            if crate::text::chars_eq_str(&l, "mkv") || crate::text::chars_eq_str(&l, "mp4")
                || crate::text::chars_eq_str(&l, "avi") || crate::text::chars_eq_str(&l, "mov")
                || crate::text::chars_eq_str(&l, "wmv") || crate::text::chars_eq_str(&l, "m4v")
                || crate::text::chars_eq_str(&l, "mpg") || crate::text::chars_eq_str(&l, "mpeg")
                || crate::text::chars_eq_str(&l, "ts") || crate::text::chars_eq_str(&l, "m2ts")
                || crate::text::chars_eq_str(&l, "webm") {
                n += 1;
            }
        }
        i += 1;
    }
    assert(exts@.take(exts.len() as int) =~= exts@);
    n
}

/// The display form of a name used to compare folder and file names.
#[verifier::opaque]
pub open spec fn canonical_name(s: Seq<char>) -> Seq<char> {
    crate::display::spec_sanitize_component(crate::display::spec_display_title(s))
}

/// `should_move_into_canonical_folder`: only a folder that holds this movie
/// (one media file, or several when allowed), and whose name differs from the
/// canonical stem ignoring ASCII case, is renamed.  `folder_files` holds the
/// extensions of the folder's regular files, `None` when it cannot be listed.
pub open spec fn spec_should_move(
    parent: Seq<char>,
    canonical_stem: Seq<char>,
    allow_multi: bool,
    folder_files: Option<Seq<Option<String>>>,
) -> bool {
    match (path_file_name(parent), folder_files) {
        (Some(folder), Some(files)) => {
            let n = folder_media_count(files);
            &&& n > 0
            &&& (n <= 1 || allow_multi)
            &&& crate::text::ascii_lower(canonical_name(folder)) != crate::text::ascii_lower(
                canonical_name(canonical_stem),
            )
        },
        _ => false,
    }
}

/// A folder that holds more than one media file is never renamed unless
/// renaming multi-file folders is allowed.
pub proof fn lemma_multi_file_folder_needs_flag(
    parent: Seq<char>,
    canonical_stem: Seq<char>,
    files: Seq<Option<String>>,
)
    requires
        folder_media_count(files) > 1,
    ensures
        !spec_should_move(parent, canonical_stem, false, Some(files)),
{
}

/// With renaming multi-file folders allowed, a named folder that holds media
/// files and whose name differs from the canonical stem is moved, however
/// many media files it holds.
pub proof fn lemma_multi_file_folder_moves_with_flag(
    parent: Seq<char>,
    canonical_stem: Seq<char>,
    files: Seq<Option<String>>,
)
    requires
        path_file_name(parent) is Some,
        folder_media_count(files) > 0,
        crate::text::ascii_lower(canonical_name(path_file_name(parent)->0)) != crate::text::ascii_lower(
            canonical_name(canonical_stem),
        ),
    ensures
        spec_should_move(parent, canonical_stem, true, Some(files)),
{
}


pub fn canonical_name_chars(v: &Vec<char>) -> (r: Vec<char>)
    ensures
        r@ == canonical_name(v@),
{
    proof {
        reveal(canonical_name);
    }
    crate::display::sanitize_component_chars(&crate::display::display_title_chars(v))
}

pub fn should_move_into_canonical_folder(
    parent: &Vec<char>,
    canonical_stem: &Vec<char>,
    allow_multi: bool,
    folder_files: Option<&Vec<Option<String>>>,
) -> (r: bool)
    ensures
        r == spec_should_move(
            parent@,
            canonical_stem@,
            allow_multi,
            match folder_files {
                Some(f) => Some(f@),
                None => None,
            },
        ),
{
    let folder = match file_name_of(parent) {
        Some(f) => f,
        None => {
            return false;
        },
    };
    let files = match folder_files {
        Some(f) => f,
        None => {
            return false;
        },
    };
    let n = count_folder_media(files);
    if n == 0 {
        return false;
    }
    if n > 1 && !allow_multi {
        return false;
    }
    let a = crate::text::lower_chars(&canonical_name_chars(&folder));
    let b = crate::text::lower_chars(&canonical_name_chars(canonical_stem));
    !chars_eq(&a, &b)
}

pub open spec fn year_u16(y: Option<nat>) -> Option<u16> {
    match y {
        Some(v) => Some(v as u16),
        None => None,
    }
}

/// Where `compute_rename_target` puts a media file, before the check that
/// the target is free: the display title (sanitised; the file stem's when
/// the title gives nothing) with the year, shortened to fit, in the parent
/// folder, or in the parent folder renamed to the same stem when it holds
/// this movie.  The flag tells whether the stem was shortened.
pub open spec fn spec_rename_plan(
    media_path: Seq<char>,
    o: Option<&crate::metadata::MetadataOverride>,
    allow_multi: bool,
    nfo_contents: Seq<Option<String>>,
    folder_files: Option<Seq<Option<String>>>,
) -> Result<(Seq<char>, bool), Seq<char>> {
    match path_parent(media_path) {
        None => Err("cannot determine rename parent directory"@),
        Some(parent) => {
            let ext = match crate::paths::path_extension(media_path) {
                Some(e) => seq!['.'] + e,
                None => seq![],
            };
            match crate::paths::path_file_stem(media_path) {
                None => Err("cannot determine media file stem"@),
                Some(stem) => {
                    let inferred = crate::metadata::spec_infer(media_path, stem, o, nfo_contents, true);
                    let sanitized = canonical_name(inferred.0);
                    let title = if sanitized.len() == 0 {
                        canonical_name(stem)
                    } else {
                        sanitized
                    };
                    let year = year_u16(inferred.1);
                    if title.len() == 0 {
                        Err("rename target stem is empty after normalization"@)
                    } else {
                        match spec_build_rename_stem(parent, false, title, year, ext) {
                            Err(m) => Err(m),
                            Ok((first, first_trunc)) => if spec_should_move(
                                parent,
                                first,
                                allow_multi,
                                folder_files,
                            ) {
                                match spec_build_rename_stem(parent, true, title, year, ext) {
                                    Err(m) => Err(m),
                                    Ok((moved, moved_trunc)) => Ok(
                                        (
                                            path_join(with_file_name(parent, moved), moved + ext),
                                            first_trunc || moved_trunc,
                                        ),
                                    ),
                                }
                            } else {
                                Ok((path_join(parent, first + ext), first_trunc))
                            },
                        }
                    }
                },
            }
        },
    }
}

/// A rename target and whether its stem was shortened.
pub struct RenamePlan {
    pub target: String,
    pub truncated: bool,
}

#[verifier::rlimit(100)]
pub fn plan_rename_target(
    media_path: &str,
    metadata_override: Option<&crate::metadata::MetadataOverride>,
    allow_multi: bool,
    nfo_contents: &Vec<Option<String>>,
    folder_files: Option<&Vec<Option<String>>>,
) -> (r: Result<RenamePlan, String>)
    ensures
        match (
            r,
            spec_rename_plan(
                media_path@,
                metadata_override,
                allow_multi,
                nfo_contents@,
                match folder_files {
                    Some(f) => Some(f@),
                    None => None,
                },
            ),
        ) {
            (Ok(p), Ok((t, tr))) => p.target@ == t && p.truncated == tr,
            (Err(m), Err(m2)) => m@ == m2,
            _ => false,
        },
{
    let mp = chars_of(media_path);
    let parent = match parent_of(&mp) {
        Some(p) => p,
        None => {
            return Err(crate::text::owned("cannot determine rename parent directory"));
        },
    };
    let ext = match crate::paths::extension_of(&mp) {
        Some(e) => {
            let mut v: Vec<char> = Vec::new();
            v.push('.');
            append_chars(&mut v, &e);
            assert(v@ =~= seq!['.'] + e@);
            v
        },
        None => Vec::new(),
    };
    let stem = match crate::paths::file_stem_of(&mp) {
        Some(s) => s,
        None => {
            return Err(crate::text::owned("cannot determine media file stem"));
        },
    };
    let stem_s = string_from_chars(&stem);
    let inferred = crate::metadata::infer_metadata_candidate(
        media_path,
        stem_s.as_str(),
        metadata_override,
        nfo_contents,
    );
    proof {
        crate::metadata::lemma_infer_byte_order_moves_only_provider(
            media_path@,
            stem_s@,
            metadata_override,
            nfo_contents@,
        );
    }
    assert(inferred.title@ == crate::metadata::spec_infer(media_path@, stem_s@, metadata_override, nfo_contents@, true).0);
    assert(crate::metadata::year_nat(inferred.year) == crate::metadata::spec_infer(
        media_path@,
        stem_s@,
        metadata_override,
        nfo_contents@,
        true,
    ).1);
    let it = chars_of(inferred.title.as_str());
    let sanitized = canonical_name_chars(&it);
    let title = if sanitized.len() == 0 {
        canonical_name_chars(&stem)
    } else {
        sanitized
    };
    let year = inferred.year;
    if title.len() == 0 {
        return Err(crate::text::owned("rename target stem is empty after normalization"));
    }
    let (first, first_trunc) = match build_rename_stem_with_limits(&parent, false, &title, year, &ext) {
        Ok(v) => v,
        Err(m) => {
            return Err(m);
        },
    };
    if should_move_into_canonical_folder(&parent, &first, allow_multi, folder_files) {
        let (moved, moved_trunc) = match build_rename_stem_with_limits(
            &parent,
            true,
            &title,
            year,
            &ext,
        ) {
            Ok(v) => v,
            Err(m) => {
                return Err(m);
            },
        };
        let target_parent = with_file_name_chars(&parent, &moved);
        let mut name = copy_chars(&moved);
        append_chars(&mut name, &ext);
        let target = join_chars(&target_parent, &name);
        Ok(RenamePlan { target: string_from_chars(&target), truncated: first_trunc || moved_trunc })
    } else {
        let mut name = copy_chars(&first);
        append_chars(&mut name, &ext);
        let target = join_chars(&parent, &name);
        Ok(RenamePlan { target: string_from_chars(&target), truncated: first_trunc })
    }
}

/// The last step of `compute_rename_target`: a target that is the media path
/// (as `Path` compares them) needs nothing; an existing target is a collision; otherwise the rename
/// goes ahead, its note telling whether the stem was shortened.
pub open spec fn spec_rename_outcome(media_path: Seq<char>, target: Seq<char>, truncated: bool, target_exists: bool) -> Result<(Seq<char>, Seq<char>), Seq<char>> {
    if crate::paths::same_path(target, media_path) {
        Ok((target, "already matches Movie Name - Subtitle (Year) format"@))
    } else if target_exists {
        if truncated {
            Err("rename collision after truncation: target already exists ("@ + target + ")"@)
        } else {
            Err("rename collision: target already exists ("@ + target + ")"@)
        }
    } else if truncated {
        Ok(
            (
                target,
                "will rename to Movie Name - Subtitle (Year) format (truncated to fit filesystem limits)"@,
            ),
        )
    } else {
        Ok((target, "will rename to Movie Name - Subtitle (Year) format"@))
    }
}

pub fn rename_outcome(media_path: &str, plan: &RenamePlan, target_exists: bool) -> (r: Result<(String, String), String>)
    ensures
        match (r, spec_rename_outcome(media_path@, plan.target@, plan.truncated, target_exists)) {
            (Ok((t, n)), Ok((t2, n2))) => t@ == t2 && n@ == n2,
            (Err(m), Err(m2)) => m@ == m2,
            _ => false,
        },
{
    let t = chars_of(plan.target.as_str());
    let m = chars_of(media_path);
    if crate::paths::same_path_chars(&t, &m) {
        return Ok((string_from_chars(&t), crate::text::owned("already matches Movie Name - Subtitle (Year) format")));
    }
    if target_exists {
        let mut msg = if plan.truncated {
            chars_of("rename collision after truncation: target already exists (")
        } else {
            chars_of("rename collision: target already exists (")
        };
        append_chars(&mut msg, &t);
        append_str(&mut msg, ")");
        return Err(string_from_chars(&msg));
    }
    let note = if plan.truncated {
        crate::text::owned(
            "will rename to Movie Name - Subtitle (Year) format (truncated to fit filesystem limits)",
        )
    } else {
        crate::text::owned("will rename to Movie Name - Subtitle (Year) format")
    };
    Ok((string_from_chars(&t), note))
}

} // verus!
