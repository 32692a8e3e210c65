use vstd::prelude::*;

use crate::order::{keys_sorted, sort_by_key, sort_keyed, SortKey};
use crate::paths::{
    extension_of, file_name_of, file_stem_of, join_chars, parent_of, path_extension,
    path_file_name, path_file_stem, path_join, path_parent, same_path, same_path_chars,
};
use crate::text::{
    append_chars, append_str, ascii_lower, opt_chars, chars_eq, chars_eq_str, chars_of, contains_seq,
    copy_chars, find_chars, has_prefix, is_first_occurrence, lower_chars, slice_chars,
    starts_with_chars, string_from_chars,
};

verus! {

// ---------------------------------------------------------------------------
// Names of the files that travel with a media file
// ---------------------------------------------------------------------------

/// Folder-level artwork (`poster.jpg`, `fanart.png`, ...) that belongs to the
/// single movie of its folder.
pub open spec fn is_image_alias(stem_lower: Seq<char>, extension: Option<Seq<char>>) -> bool {
    match extension {
        None => false,
        Some(ext) => {
            &&& (ext == "jpg"@ || ext == "jpeg"@ || ext == "png"@ || ext == "webp"@ || ext
                == "tbn"@)
            &&& (stem_lower == "poster"@ || stem_lower == "fanart"@ || stem_lower == "banner"@
                || stem_lower == "clearlogo"@ || stem_lower == "clearart"@ || stem_lower
                == "landscape"@ || stem_lower == "thumb"@ || stem_lower == "logo"@ || stem_lower
                == "folder"@ || stem_lower == "discart"@ || stem_lower == "disc"@ || stem_lower
                == "keyart"@)
        },
    }
}

pub fn is_folder_level_image_alias(stem_lower: &str, extension: Option<&str>) -> (r: bool)
    ensures
        r == is_image_alias(
            stem_lower@,
            match extension {
                Some(e) => Some(e@),
                None => None,
            },
        ),
{
    let ext = match extension {
        Some(e) => chars_of(e),
        None => {
            return false;
        },
    };
    if !(chars_eq_str(&ext, "jpg") || chars_eq_str(&ext, "jpeg") || chars_eq_str(&ext, "png")
        || chars_eq_str(&ext, "webp") || chars_eq_str(&ext, "tbn")) {
        return false;
    }
    let s = chars_of(stem_lower);
    chars_eq_str(&s, "poster") || chars_eq_str(&s, "fanart") || chars_eq_str(&s, "banner")
        || chars_eq_str(&s, "clearlogo") || chars_eq_str(&s, "clearart") || chars_eq_str(
        &s,
        "landscape",
    ) || chars_eq_str(&s, "thumb") || chars_eq_str(&s, "logo") || chars_eq_str(&s, "folder")
        || chars_eq_str(&s, "discart") || chars_eq_str(&s, "disc") || chars_eq_str(&s, "keyart")
}

pub open spec fn lower_opt(e: Option<Seq<char>>) -> Option<Seq<char>> {
    match e {
        Some(x) => Some(ascii_lower(x)),
        None => None,
    }
}

/// The stem a family member takes: the media stem replaced where the member's
/// stem is it or starts with it and `.`, `-` or `_`; folder `movie.nfo` and
/// folder artwork are tied to the new stem too.
pub open spec fn family_stem(
    stem: Seq<char>,
    ext_lower: Option<Seq<char>>,
    source: Seq<char>,
    target: Seq<char>,
) -> Option<Seq<char>> {
    if stem == source {
        Some(target)
    } else if has_prefix(stem, source.push('.')) {
        Some(target.push('.') + stem.skip(source.len() as int + 1))
    } else if has_prefix(stem, source.push('-')) {
        Some(target.push('-') + stem.skip(source.len() as int + 1))
    } else if has_prefix(stem, source.push('_')) {
        Some(target.push('_') + stem.skip(source.len() as int + 1))
    } else if ascii_lower(stem) == "movie"@ && ext_lower == Some("nfo"@) {
        Some(target + "-movie"@)
    } else if is_image_alias(ascii_lower(stem), ext_lower) {
        Some(target.push('-') + ascii_lower(stem))
    } else {
        None
    }
}

/// `linked_family_target_name`: the new name of a file beside the media file,
/// its extension lower-cased, or `None` when the file is not part of the
/// media file's family.
pub open spec fn spec_family_target_name(file_name: Seq<char>, source: Seq<char>, target: Seq<
    char,
>) -> Option<Seq<char>> {
    match path_file_stem(file_name) {
        None => None,
        Some(stem) => {
            let ext = lower_opt(path_extension(file_name));
            match family_stem(stem, ext, source, target) {
                None => None,
                Some(m) => Some(
                    match ext {
                        Some(e) => m.push('.') + e,
                        None => m,
                    },
                ),
            }
        },
    }
}

fn prefixed_rest(stem: &Vec<char>, source: &Vec<char>, sep: char, target: &Vec<char>) -> (r:
    Option<Vec<char>>)
    ensures
        match r {
            Some(v) => has_prefix(stem@, source@.push(sep)) && v@ == target@.push(sep) + stem@.skip(
                source@.len() as int + 1,
            ),
            None => !has_prefix(stem@, source@.push(sep)),
        },
{
    let mut p = copy_chars(source);
    p.push(sep);
    if !starts_with_chars(stem, &p) {
        return None;
    }
    let mut out = copy_chars(target);
    out.push(sep);
    let rest = slice_chars(stem, p.len(), stem.len());
    append_chars(&mut out, &rest);
    assert(rest@ =~= stem@.skip(source@.len() as int + 1));
    Some(out)
}

fn family_stem_chars(
    stem: &Vec<char>,
    ext_lower: &Option<Vec<char>>,
    source: &Vec<char>,
    target: &Vec<char>,
) -> (r: Option<Vec<char>>)
    ensures
        match r {
            Some(v) => family_stem(stem@, opt_chars(*ext_lower), source@, target@)
                == Some(v@),
            None => family_stem(stem@, opt_chars(*ext_lower), source@, target@) is None,
        },
{
    if chars_eq(stem, source) {
        return Some(copy_chars(target));
    }
    if let Some(v) = prefixed_rest(stem, source, '.', target) {
        return Some(v);
    }
    if let Some(v) = prefixed_rest(stem, source, '-', target) {
        return Some(v);
    }
    if let Some(v) = prefixed_rest(stem, source, '_', target) {
        return Some(v);
    }
    let lower = lower_chars(stem);
    let is_nfo = match ext_lower {
        Some(e) => chars_eq_str(e, "nfo"),
        None => false,
    };
    if chars_eq_str(&lower, "movie") && is_nfo {
        let mut out = copy_chars(target);
        append_str(&mut out, "-movie");
        return Some(out);
    }
    let ls = string_from_chars(&lower);
    let alias = match ext_lower {
        Some(e) => {
            let es = string_from_chars(e);
            is_folder_level_image_alias(ls.as_str(), Some(es.as_str()))
        },
        None => is_folder_level_image_alias(ls.as_str(), None),
    };
    if alias {
        let mut out = copy_chars(target);
        out.push('-');
        append_chars(&mut out, &lower);
        return Some(out);
    }
    None
}

pub fn family_target_name_chars(file_name: &Vec<char>, source: &Vec<char>, target: &Vec<char>) -> (r:
    Option<Vec<char>>)
    ensures
        match r {
            Some(v) => spec_family_target_name(file_name@, source@, target@) == Some(v@),
            None => spec_family_target_name(file_name@, source@, target@) is None,
        },
{
    let stem = match file_stem_of(file_name) {
        Some(s) => s,
        None => {
            return None;
        },
    };
    let ext = match extension_of(file_name) {
        Some(e) => Some(lower_chars(&e)),
        None => None,
    };
    assert(opt_chars(ext) == lower_opt(path_extension(file_name@)));
    let mapped = match family_stem_chars(&stem, &ext, source, target) {
        Some(m) => m,
        None => {
            return None;
        },
    };
    match ext {
        Some(e) => {
            let mut out = mapped;
            out.push('.');
            append_chars(&mut out, &e);
            Some(out)
        },
        None => Some(mapped),
    }
}

/// `linked_family_target_name`: "Old Name.en.srt" follows "Old Name" to
/// "New Name.en.srt".
/// Files named after the media stem follow it: the member with exactly the
/// stem takes the new stem, and one whose stem is the media stem, then `.`,
/// `-` or `_` and more, keeps that separator and the rest after the new stem.
pub proof fn lemma_stem_members_follow_media(
    source: Seq<char>,
    sep: char,
    rest: Seq<char>,
    ext_lower: Option<Seq<char>>,
    target: Seq<char>,
)
    requires
        sep == '.' || sep == '-' || sep == '_',
    ensures
        family_stem(source, ext_lower, source, target) == Some(target),
        family_stem(source.push(sep) + rest, ext_lower, source, target) == Some(target.push(sep) + rest),
{
    let stem = source.push(sep) + rest;
    assert(stem.subrange(0, source.len() as int + 1) =~= source.push(sep));
    assert(stem.skip(source.len() as int + 1) =~= rest);
    assert(stem != source) by {
        assert(stem.len() > source.len());
    }
    assert(stem[source.len() as int] == sep);
    if sep != '.' {
        assert(!has_prefix(stem, source.push('.'))) by {
            assert(source.push('.')[source.len() as int] == '.');
        }
    }
    if sep == '_' {
        assert(!has_prefix(stem, source.push('-'))) by {
            assert(source.push('-')[source.len() as int] == '-');
        }
    }
}

/// The folder's `movie.nfo` (in any case) travels with the media file as
/// "<target>-movie.nfo" when it is not already named after the media stem.
pub proof fn lemma_movie_nfo_follows_media(a: Seq<char>, e: Seq<char>, source: Seq<char>, target: Seq<char>)
    requires
        ascii_lower(a) == "movie"@,
        ascii_lower(e) == "nfo"@,
        a.len() > 0,
        e.len() > 0,
        forall|i: int| 0 <= i < a.len() ==> a[i] != '.' && a[i] != '/',
        forall|i: int| 0 <= i < e.len() ==> e[i] != '.' && e[i] != '/',
        a != source,
        !has_prefix(a, source.push('.')),
        !has_prefix(a, source.push('-')),
        !has_prefix(a, source.push('_')),
    ensures
        spec_family_target_name(a + seq!['.'] + e, source, target) == Some(target + "-movie"@ + seq!['.'] + "nfo"@),
{
    crate::paths::lemma_plain_file_name(a, e);
}

/// Folder-level artwork travels with the media file.  A plain file `a.e`
/// that is not already named after the media stem (`a` is not the stem and
/// does not start with it and `.`, `-` or `_`), and is not `movie.nfo`, is
/// renamed to "<target>-<a>.<e>" (both lower-cased) exactly when `a` is, in
/// any case, poster, fanart, banner, clearlogo, clearart, landscape, thumb,
/// logo, folder, discart, disc or keyart and `e` is, in any case, jpg, jpeg,
/// png, webp or tbn; otherwise it stays behind.
pub proof fn lemma_folder_artwork_follows_media(
    a: Seq<char>,
    e: Seq<char>,
    source: Seq<char>,
    target: Seq<char>,
)
    requires
        a.len() > 0,
        e.len() > 0,
        forall|i: int| 0 <= i < a.len() ==> a[i] != '.' && a[i] != '/',
        forall|i: int| 0 <= i < e.len() ==> e[i] != '.' && e[i] != '/',
        a != source,
        !has_prefix(a, source.push('.')),
        !has_prefix(a, source.push('-')),
        !has_prefix(a, source.push('_')),
        !(ascii_lower(a) == "movie"@ && ascii_lower(e) == "nfo"@),
    ensures
        spec_family_target_name(a + seq!['.'] + e, source, target) == if set![
            "poster"@,
            "fanart"@,
            "banner"@,
            "clearlogo"@,
            "clearart"@,
            "landscape"@,
            "thumb"@,
            "logo"@,
            "folder"@,
            "discart"@,
            "disc"@,
            "keyart"@,
        ].contains(ascii_lower(a)) && set!["jpg"@, "jpeg"@, "png"@, "webp"@, "tbn"@].contains(
            ascii_lower(e),
        ) {
            Some(target.push('-') + ascii_lower(a) + seq!['.'] + ascii_lower(e))
        } else {
            None
        },
{
    crate::paths::lemma_plain_file_name(a, e);
}

pub fn linked_family_target_name(file_name: &str, source_stem: &str, target_stem: &str) -> (r:
    Option<String>)
    ensures
        match r {
            Some(v) => spec_family_target_name(file_name@, source_stem@, target_stem@) == Some(v@),
            None => spec_family_target_name(file_name@, source_stem@, target_stem@) is None,
        },
{
    let f = chars_of(file_name);
    let s = chars_of(source_stem);
    let t = chars_of(target_stem);
    match family_target_name_chars(&f, &s, &t) {
        Some(v) => Some(string_from_chars(&v)),
        None => None,
    }
}

// ---------------------------------------------------------------------------
// Trickplay folders
// ---------------------------------------------------------------------------

/// A trickplay folder of the media file: its lower-cased name starts with the
/// lower-cased media stem and mentions "trickplay".
pub open spec fn spec_is_trickplay_dir(dir_name: Seq<char>, source_stem: Seq<char>) -> bool {
    has_prefix(ascii_lower(dir_name), ascii_lower(source_stem)) && contains_seq(
        ascii_lower(dir_name),
        "trickplay"@,
    )
}

pub fn is_trickplay_directory_name(dir_name: &str, source_stem: &str) -> (r: bool)
    ensures
        r == spec_is_trickplay_dir(dir_name@, source_stem@),
{
    let lower = lower_chars(&chars_of(dir_name));
    let source_lower = lower_chars(&chars_of(source_stem));
    let needle = chars_of("trickplay");
    starts_with_chars(&lower, &source_lower) && find_chars(&lower, &needle).is_some()
}

/// `rename_trickplay_directory_name`: the media stem replaced by the new one,
/// at the start when it is there verbatim, else at its first case-insensitive
/// occurrence; the name unchanged when it does not occur.
pub open spec fn spec_rename_trickplay(dir: Seq<char>, source: Seq<char>, target: Seq<char>) -> Seq<
    char,
> {
    if has_prefix(dir, source) {
        target + dir.skip(source.len() as int)
    } else if contains_seq(ascii_lower(dir), ascii_lower(source)) {
        let i = choose|i: int| is_first_occurrence(ascii_lower(dir), ascii_lower(source), i);
        dir.take(i) + target + dir.skip(i + source.len())
    } else {
        dir
    }
}

pub fn rename_trickplay_directory_name(dir_name: &str, source_stem: &str, target_stem: &str) -> (r:
    String)
    ensures
        r@ == spec_rename_trickplay(dir_name@, source_stem@, target_stem@),
{
    let d = chars_of(dir_name);
    let s = chars_of(source_stem);
    let t = chars_of(target_stem);
    if starts_with_chars(&d, &s) {
        let mut out = copy_chars(&t);
        let rest = slice_chars(&d, s.len(), d.len());
        append_chars(&mut out, &rest);
        assert(rest@ =~= d@.skip(s@.len() as int));
        return string_from_chars(&out);
    }
    let lower = lower_chars(&d);
    let source_lower = lower_chars(&s);
    match find_chars(&lower, &source_lower) {
        Some(i) => {
            proof {
                let ghost j = choose|j: int|
                    is_first_occurrence(ascii_lower(d@), ascii_lower(s@), j);
                assert(is_first_occurrence(ascii_lower(d@), ascii_lower(s@), i as int));
                if j < i {
                    assert(!crate::text::occurs_at(ascii_lower(d@), ascii_lower(s@), j));
                } else if j > i {
                    assert(!crate::text::occurs_at(ascii_lower(d@), ascii_lower(s@), i as int));
                }
                assert(j == i);
            }
            assert(crate::text::occurs_at(lower@, source_lower@, i as int));
            let ll = lower.len();
            let sl = source_lower.len();
            assert(i + sl <= ll);
            let end = i + sl;
            let mut out = slice_chars(&d, 0, i);
            append_chars(&mut out, &t);
            let rest = slice_chars(&d, end, d.len());
            append_chars(&mut out, &rest);
            assert(out@ =~= d@.take(i as int) + t@ + d@.skip(i + s@.len()));
            string_from_chars(&out)
        },
        None => string_from_chars(&d),
    }
}

// ---------------------------------------------------------------------------
// Moving a media file's family
// ---------------------------------------------------------------------------

/// The kind of a directory entry, as listing the directory reports it.
#[derive(Debug, Clone, Copy, PartialEq, Eq, Structural)]
pub enum EntryKind {
    File,
    Dir,
    Symlink,
    Other,
}

/// An entry beside the media file.
pub struct FamilyEntry {
    pub path: String,
    pub kind: EntryKind,
}

/// Parents and stems of the media file before and after its rename.
pub struct FamilyStems {
    pub source_parent: String,
    pub target_parent: String,
    pub source_stem: String,
    pub target_stem: String,
}

/// A rename of one family member.
#[derive(Debug)]
pub struct RenamePair {
    pub source: String,
    pub target: String,
}

impl SortKey for RenamePair {
    open spec fn sort_key(&self) -> Seq<char> {
        self.source@
    }

    fn sort_key_chars(&self) -> (r: Vec<char>) {
        chars_of(self.source.as_str())
    }
}

pub open spec fn stems_match(
    st: FamilyStems,
    sp: Seq<char>,
    tp: Seq<char>,
    ss: Seq<char>,
    ts: Seq<char>,
) -> bool {
    st.source_parent@ == sp && st.target_parent@ == tp && st.source_stem@ == ss
        && st.target_stem@ == ts
}

/// The first step of `rename_linked_sidecar_family`: both paths need a parent
/// and a stem (in that order, source first); nothing is to be done when
/// neither the stem nor the parent (as a path) changes.
pub fn family_stems(source_media: &str, target_media: &str) -> (r: Result<Option<FamilyStems>, String>)
    ensures
        path_parent(source_media@) is None ==> (r matches Err(m) && m@
            == "cannot determine source parent directory"@),
        path_parent(source_media@) is Some && path_parent(target_media@) is None ==> (r matches Err(
            m,
        ) && m@ == "cannot determine target parent directory"@),
        path_parent(source_media@) is Some && path_parent(target_media@) is Some && path_file_stem(
            source_media@,
        ) is None ==> (r matches Err(m) && m@ == "cannot determine source media stem"@),
        path_parent(source_media@) is Some && path_parent(target_media@) is Some && path_file_stem(
            source_media@,
        ) is Some && path_file_stem(target_media@) is None ==> (r matches Err(m) && m@
            == "cannot determine target media stem"@),
        r is Ok <==> (path_parent(source_media@) is Some && path_parent(target_media@) is Some
            && path_file_stem(source_media@) is Some && path_file_stem(target_media@) is Some),
        r matches Ok(o) ==> match (
            path_parent(source_media@),
            path_parent(target_media@),
            path_file_stem(source_media@),
            path_file_stem(target_media@),
        ) {
            (Some(sp), Some(tp), Some(ss), Some(ts)) => if ss == ts && same_path(sp, tp) {
                o is None
            } else {
                o matches Some(st) && stems_match(st, sp, tp, ss, ts)
            },
            _ => false,
        },
{
    let s = chars_of(source_media);
    let t = chars_of(target_media);
    let sp = match parent_of(&s) {
        Some(p) => p,
        None => {
            return Err(crate::text::owned("cannot determine source parent directory"));
        },
    };
    let tp = match parent_of(&t) {
        Some(p) => p,
        None => {
            return Err(crate::text::owned("cannot determine target parent directory"));
        },
    };
    let ss = match file_stem_of(&s) {
        Some(p) => p,
        None => {
            return Err(crate::text::owned("cannot determine source media stem"));
        },
    };
    let ts = match file_stem_of(&t) {
        Some(p) => p,
        None => {
            return Err(crate::text::owned("cannot determine target media stem"));
        },
    };
    if chars_eq(&ss, &ts) && same_path_chars(&sp, &tp) {
        return Ok(None);
    }
    Ok(
        Some(
            FamilyStems {
                source_parent: string_from_chars(&sp),
                target_parent: string_from_chars(&tp),
                source_stem: string_from_chars(&ss),
                target_stem: string_from_chars(&ts),
            },
        ),
    )
}

/// Where one entry beside the media file moves: nowhere for the media file
/// itself and for entries outside its family; a refusal for a symlink; a
/// trickplay folder or a family file moves into the target parent.
pub open spec fn spec_entry_target(source_media: Seq<char>, st: FamilyStems, e: FamilyEntry) -> Result<
    Option<Seq<char>>,
    Seq<char>,
> {
    if same_path(e.path@, source_media) {
        Ok(None)
    } else if e.kind == EntryKind::Symlink {
        Err("linked sidecar entry is symlink and cannot be renamed safely ("@ + e.path@ + ")"@)
    } else if e.kind == EntryKind::Dir {
        match path_file_name(e.path@) {
            None => Ok(None),
            Some(name) => if !spec_is_trickplay_dir(name, st.source_stem@) {
                Ok(None)
            } else {
                let target = path_join(
                    st.target_parent@,
                    spec_rename_trickplay(name, st.source_stem@, st.target_stem@),
                );
                if same_path(target, e.path@) {
                    Ok(None)
                } else {
                    Ok(Some(target))
                }
            },
        }
    } else if e.kind != EntryKind::File {
        Ok(None)
    } else {
        match path_file_name(e.path@) {
            None => Ok(None),
            Some(name) => match spec_family_target_name(name, st.source_stem@, st.target_stem@) {
                None => Ok(None),
                Some(tn) => {
                    let target = path_join(st.target_parent@, tn);
                    if same_path(target, e.path@) {
                        Ok(None)
                    } else {
                        Ok(Some(target))
                    }
                },
            },
        }
    }
}

pub fn family_entry_target(source_media: &str, stems: &FamilyStems, entry: &FamilyEntry) -> (r:
    Result<Option<String>, String>)
    ensures
        match (r, spec_entry_target(source_media@, *stems, *entry)) {
            (Ok(Some(a)), Ok(Some(b))) => a@ == b,
            (Ok(None), Ok(None)) => true,
            (Err(a), Err(b)) => a@ == b,
            _ => false,
        },
{
    let path = chars_of(entry.path.as_str());
    let media = chars_of(source_media);
    if same_path_chars(&path, &media) {
        return Ok(None);
    }
    if entry.kind == EntryKind::Symlink {
        let mut m = chars_of("linked sidecar entry is symlink and cannot be renamed safely (");
        append_chars(&mut m, &path);
        append_str(&mut m, ")");
        return Err(string_from_chars(&m));
    }
    if entry.kind != EntryKind::Dir && entry.kind != EntryKind::File {
        return Ok(None);
    }
    let name = match file_name_of(&path) {
        Some(n) => n,
        None => {
            return Ok(None);
        },
    };
    let tp = chars_of(stems.target_parent.as_str());
    let target_name = if entry.kind == EntryKind::Dir {
        let ns = string_from_chars(&name);
        if !is_trickplay_directory_name(ns.as_str(), stems.source_stem.as_str()) {
            return Ok(None);
        }
        let renamed = rename_trickplay_directory_name(
            ns.as_str(),
            stems.source_stem.as_str(),
            stems.target_stem.as_str(),
        );
        chars_of(renamed.as_str())
    } else {
        let ss = chars_of(stems.source_stem.as_str());
        let ts = chars_of(stems.target_stem.as_str());
        match family_target_name_chars(&name, &ss, &ts) {
            Some(v) => v,
            None => {
                return Ok(None);
            },
        }
    };
    let target = join_chars(&tp, &target_name);
    if same_path_chars(&target, &path) {
        return Ok(None);
    }
    Ok(Some(string_from_chars(&target)))
}

/// The renames in entry order, or the first refusal: an entry's own refusal,
/// or a target that already exists.
pub open spec fn spec_family_plan(
    source_media: Seq<char>,
    st: FamilyStems,
    entries: Seq<FamilyEntry>,
    exists: Seq<bool>,
) -> Result<Seq<(Seq<char>, Seq<char>)>, Seq<char>>
    decreases entries.len(),
{
    if entries.len() == 0 {
        Ok(seq![])
    } else {
        let k = entries.len() - 1;
        match spec_family_plan(source_media, st, entries.drop_last(), exists) {
            Err(m) => Err(m),
            Ok(pairs) => match spec_entry_target(source_media, st, entries[k]) {
                Err(m) => Err(m),
                Ok(None) => Ok(pairs),
                Ok(Some(t)) => if exists[k] {
                    Err("target linked sidecar path already exists ("@ + t + ")"@)
                } else {
                    Ok(pairs.push((entries[k].path@, t)))
                },
            },
        }
    }
}

pub open spec fn pair_view(p: RenamePair) -> (Seq<char>, Seq<char>) {
    (p.source@, p.target@)
}

/// `rename_linked_sidecar_family`'s plan over the listed entries, given
/// whether each entry's target (by `family_entry_target`) already exists:
/// the renames sorted by source path, or the first refusal in entry order.
pub fn plan_family_renames(
    source_media: &str,
    stems: &FamilyStems,
    entries: &Vec<FamilyEntry>,
    targets_exist: &Vec<bool>,
) -> (r: Result<Vec<RenamePair>, String>)
    requires
        entries@.len() == targets_exist@.len(),
    ensures
        match (r, spec_family_plan(source_media@, *stems, entries@, targets_exist@)) {
            (Err(a), Err(b)) => a@ == b,
            (Ok(pairs), Ok(expected)) => keys_sorted(pairs@) && exists|unsorted: Seq<RenamePair>|
                {
                    &&& unsorted.map_values(|p: RenamePair| pair_view(p)) == expected
                    &&& pairs@ == sort_keyed(unsorted)
                },
            _ => false,
        },
{
    let mut pairs: Vec<RenamePair> = Vec::new();
    let mut i: usize = 0;
    while i < entries.len()
        invariant
            i <= entries.len(),
            entries@.len() == targets_exist@.len(),
            spec_family_plan(source_media@, *stems, entries@.take(i as int), targets_exist@)
                matches Ok(exp) && pairs@.map_values(|p: RenamePair| pair_view(p)) == exp,
        decreases entries.len() - i,
    {
        let ghost prefix = entries@.take(i + 1);
        assert(prefix.drop_last() =~= entries@.take(i as int));
        assert(prefix[i as int] == entries@[i as int]);
        match family_entry_target(source_media, stems, &entries[i]) {
            Err(m) => {
                proof {
                    lemma_plan_err_sticks(source_media@, *stems, entries@, targets_exist@, i + 1);
                }
                return Err(m);
            },
            Ok(None) => {},
            Ok(Some(t)) => {
                if targets_exist[i] {
                    let mut m = chars_of("target linked sidecar path already exists (");
                    append_str(&mut m, t.as_str());
                    append_str(&mut m, ")");
                    proof {
                        lemma_plan_err_sticks(source_media@, *stems, entries@, targets_exist@, i + 1);
                    }
                    return Err(string_from_chars(&m));
                }
                let ghost before = pairs@;
                pairs.push(RenamePair { source: crate::text::copy_string(&entries[i].path), target: t });
                assert(pairs@.map_values(|p: RenamePair| pair_view(p)) =~= before.map_values(
                    |p: RenamePair| pair_view(p),
                ).push((entries@[i as int].path@, pairs@.last().target@)));
            },
        }
        i += 1;
    }
    assert(entries@.take(entries.len() as int) =~= entries@);
    let ghost unsorted = pairs@;
    let sorted = sort_by_key(pairs);
    Ok(sorted)
}

proof fn lemma_plan_err_sticks(
    source_media: Seq<char>,
    st: FamilyStems,
    entries: Seq<FamilyEntry>,
    exists: Seq<bool>,
    k: int,
)
    requires
        0 <= k <= entries.len(),
        spec_family_plan(source_media, st, entries.take(k), exists) is Err,
    ensures
        spec_family_plan(source_media, st, entries, exists) == spec_family_plan(
            source_media,
            st,
            entries.take(k),
            exists,
        ),
    decreases entries.len() - k,
{
    if k < entries.len() {
        assert(entries.take(k + 1).drop_last() =~= entries.take(k));
        lemma_plan_err_sticks(source_media, st, entries, exists, k + 1);
    } else {
        assert(entries.take(k) =~= entries);
    }
}

} // verus!
