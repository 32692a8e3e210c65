use vstd::prelude::*;

use std::collections::hash_map::DefaultHasher;
use std::hash::Hasher;
use vstd::std_specs::hash::DefaultHasherAdditionalSpecFns;

use crate::fingerprint::{native_little_endian, str_writes, u16_bytes, write_str, write_u16_in};
use crate::naming::{
    all_digits, normalize_filename_stem_chars, spec_normalize_filename_stem, spec_parse_year_token,
    year_of_token_chars,
};
use crate::text::{
    append_chars, append_str, ascii_lower, chars_eq_str, chars_of, contains_seq, copy_chars,
    find_chars, find_chars_at_or_after, find_from, has_prefix, is_ascii_digit, lemma_find_from,
    lower_chars, occurs_at, opt_chars, slice_chars, starts_with_chars, string_from_chars,
    trim_chars, trim_ws,
};

verus! {

/// Title, year and provider id read from a folder name or an NFO file, with
/// how sure the reading is, in hundredths.
#[derive(Debug)]
pub struct ParsedFolderMetadata {
    pub title: String,
    pub year: Option<u16>,
    pub provider_id: Option<String>,
    pub confidence_pct: u8,
}

pub open spec fn opt_text(o: Option<String>) -> Option<Seq<char>> {
    match o {
        Some(s) => Some(s@),
        None => None,
    }
}

// ---------------------------------------------------------------------------
// NFO documents
// ---------------------------------------------------------------------------

/// `extract_xml_tag_value`: the trimmed text between the first `<tag>` and the
/// first `</tag>` after it, tags matched case-insensitively; `None` when
/// either is missing or the text is blank.
pub open spec fn spec_tag_value(content: Seq<char>, tag: Seq<char>) -> Option<Seq<char>> {
    let lower = ascii_lower(content);
    let open = seq!['<'] + tag + seq!['>'];
    let close = seq!['<', '/'] + tag + seq!['>'];
    let i = find_from(lower, open, 0);
    if i < 0 {
        None
    } else {
        let start = i + open.len();
        let j = find_from(lower, close, start);
        if j < 0 {
            None
        } else {
            let v = trim_ws(content.subrange(start, j));
            if v.len() == 0 {
                None
            } else {
                Some(v)
            }
        }
    }
}

fn tag_chars(prefix: &str, tag: &Vec<char>) -> (r: Vec<char>)
    ensures
        r@ == prefix@ + tag@ + seq!['>'],
{
    let mut v = chars_of(prefix);
    append_chars(&mut v, tag);
    v.push('>');
    v
}

pub fn tag_value_chars(content: &Vec<char>, tag: &Vec<char>) -> (r: Option<Vec<char>>)
    ensures
        opt_chars(r) == spec_tag_value(content@, tag@),
{
    let lower = lower_chars(content);
    let open = tag_chars("<", tag);
    let close = tag_chars("</", tag);
    proof {
        reveal_strlit("<");
        reveal_strlit("</");
    }
    assert(open@ =~= seq!['<'] + tag@ + seq!['>']);
    assert(close@ =~= seq!['<', '/'] + tag@ + seq!['>']);
    let i = match find_chars_at_or_after(&lower, &open, 0) {
        Some(i) => i,
        None => {
            return None;
        },
    };
    proof {
        lemma_find_from(lower@, open@, 0);
    }
    let ol = open.len();
    let ll = lower.len();
    assert(occurs_at(lower@, open@, i as int));
    assert(i + ol <= ll);
    let start = i + ol;
    let j = match find_chars_at_or_after(&lower, &close, start) {
        Some(j) => j,
        None => {
            return None;
        },
    };
    proof {
        lemma_find_from(lower@, close@, start as int);
    }
    let raw = slice_chars(content, start, j);
    let v = trim_chars(&raw);
    if v.len() == 0 {
        None
    } else {
        Some(v)
    }
}

/// `extract_xml_tag_value`.
pub fn extract_xml_tag_value(content: &str, tag: &str) -> (r: Option<String>)
    ensures
        opt_text(r) == spec_tag_value(content@, tag@),
{
    let c = chars_of(content);
    let t = chars_of(tag);
    match tag_value_chars(&c, &t) {
        Some(v) => Some(string_from_chars(&v)),
        None => None,
    }
}

/// `char::is_ascii_whitespace`.
pub open spec fn is_ascii_ws(c: char) -> bool {
    c == ' ' || c == '\t' || c == '\n' || c == '\x0C' || c == '\r'
}

/// The characters that are not ASCII white space.
pub open spec fn strip_ascii_ws(s: Seq<char>) -> Seq<char>
    decreases s.len(),
{
    if s.len() == 0 {
        seq![]
    } else if is_ascii_ws(s.last()) {
        strip_ascii_ws(s.drop_last())
    } else {
        strip_ascii_ws(s.drop_last()).push(s.last())
    }
}

fn strip_ascii_ws_chars(v: &Vec<char>) -> (r: Vec<char>)
    ensures
        r@ == strip_ascii_ws(v@),
{
    let mut out: Vec<char> = Vec::new();
    let mut i: usize = 0;
    while i < v.len()
        invariant
            i <= v.len(),
            out@ == strip_ascii_ws(v@.take(i as int)),
        decreases v.len() - i,
    {
        assert(v@.take(i + 1).drop_last() =~= v@.take(i as int));
        assert(v@.take(i + 1).last() == v@[i as int]);
        let c = v[i];
        if !(c == ' ' || c == '\t' || c == '\n' || c == '\x0C' || c == '\r') {
            out.push(c);
        }
        i += 1;
    }
    assert(v@.take(v.len() as int) =~= v@);
    out
}

fn all_digits_chars(v: &Vec<char>, from: usize) -> (r: bool)
    requires
        from <= v.len(),
    ensures
        r == all_digits(v@.skip(from as int)),
{
    let mut i = from;
    while i < v.len()
        invariant
            from <= i <= v.len(),
            forall|k: int| from <= k < i ==> is_ascii_digit(v@[k]),
        decreases v.len() - i,
    {
        if !('0' <= v[i] && v[i] <= '9') {
            assert(v@.skip(from as int)[i - from] == v@[i as int]);
            return false;
        }
        i += 1;
    }
    assert forall|k: int| 0 <= k < v@.skip(from as int).len() implies is_ascii_digit(
        #[trigger] v@.skip(from as int)[k],
    ) by {
        assert(v@.skip(from as int)[k] == v@[from + k]);
    }
    true
}

/// An IMDb id such as "tt0123": "imdb-" and the id with ASCII white space
/// removed, when it is "tt" followed by digits only.
pub open spec fn imdb_id(v: Seq<char>) -> Option<Seq<char>> {
    let compact = strip_ascii_ws(v);
    if has_prefix(compact, "tt"@) && all_digits(compact.skip(2)) {
        Some("imdb-"@ + compact)
    } else {
        None
    }
}

fn imdb_id_chars(v: &Vec<char>) -> (r: Option<Vec<char>>)
    ensures
        opt_chars(r) == imdb_id(v@),
{
    let compact = strip_ascii_ws_chars(v);
    let tt = chars_of("tt");
    proof {
        reveal_strlit("tt");
    }
    if starts_with_chars(&compact, &tt) && all_digits_chars(&compact, 2) {
        let mut out = chars_of("imdb-");
        append_chars(&mut out, &compact);
        Some(out)
    } else {
        None
    }
}

pub open spec fn tmdb_id(v: Seq<char>) -> Option<Seq<char>> {
    let compact = strip_ascii_ws(v);
    if all_digits(compact) {
        Some("tmdb-"@ + compact)
    } else {
        None
    }
}

pub open spec fn head_is(head: Seq<char>, kind: Seq<char>) -> bool {
    contains_seq(head, "type=\""@ + kind + "\""@) || contains_seq(head, "type='"@ + kind + "'"@)
}

/// The `<uniqueid ...>` elements from `cursor` on: the first whose type is
/// imdb or tmdb and whose value is a valid id of that kind.
pub open spec fn uniqueid_scan(content: Seq<char>, cursor: int) -> Option<Seq<char>>
    decreases content.len() - cursor,
{
    let lower = ascii_lower(content);
    let start = find_from(lower, "<uniqueid"@, cursor);
    if start < 0 || cursor < 0 {
        None
    } else {
        let head_end = find_from(lower, seq!['>'], start);
        if head_end < 0 {
            None
        } else {
            let close = find_from(lower, "</uniqueid>"@, head_end + 1);
            if close < 0 {
                None
            } else {
                let head = lower.subrange(start, head_end + 1);
                let value = trim_ws(content.subrange(head_end + 1, close));
                if head_is(head, "imdb"@) && imdb_id(value) is Some {
                    imdb_id(value)
                } else if head_is(head, "tmdb"@) && tmdb_id(value) is Some {
                    tmdb_id(value)
                } else if close + 11 <= cursor || close + 11 > content.len() {
                    None
                } else {
                    uniqueid_scan(content, close + 11)
                }
            }
        }
    }
}

/// `extract_nfo_provider_id`: `<imdbid>`, else `<tmdbid>`, else the first
/// usable `<uniqueid>`.
pub open spec fn spec_nfo_provider_id(content: Seq<char>) -> Option<Seq<char>> {
    let imdb = match spec_tag_value(content, "imdbid"@) {
        Some(v) => imdb_id(v),
        None => None,
    };
    let tmdb = match spec_tag_value(content, "tmdbid"@) {
        Some(v) => if all_digits(v) {
            Some("tmdb-"@ + v)
        } else {
            None
        },
        None => None,
    };
    if imdb is Some {
        imdb
    } else if tmdb is Some {
        tmdb
    } else {
        uniqueid_scan(content, 0)
    }
}

fn contains_str(hay: &Vec<char>, needle: &str) -> (r: bool)
    ensures
        r == contains_seq(hay@, needle@),
{
    let n = chars_of(needle);
    find_chars(hay, &n).is_some()
}

fn head_is_chars(head: &Vec<char>, dq: &str, sq: &str) -> (r: bool)
    ensures
        r == (contains_seq(head@, dq@) || contains_seq(head@, sq@)),
{
    contains_str(head, dq) || contains_str(head, sq)
}

fn uniqueid_scan_chars(content: &Vec<char>, lower: &Vec<char>) -> (r: Option<Vec<char>>)
    requires
        lower@ == ascii_lower(content@),
    ensures
        opt_chars(r) == uniqueid_scan(content@, 0),
{
    let open = chars_of("<uniqueid");
    let mut gt: Vec<char> = Vec::new();
    gt.push('>');
    assert(gt@ =~= seq!['>']);
    let close_tag = chars_of("</uniqueid>");
    let mut cursor: usize = 0;
    proof {
        reveal_strlit("</uniqueid>");
        reveal_strlit("type=\"imdb\"");
        reveal_strlit("type='imdb'");
        reveal_strlit("type=\"tmdb\"");
        reveal_strlit("type='tmdb'");
        assert("type=\""@ + "imdb"@ + "\""@ =~= "type=\"imdb\""@) by {
            reveal_strlit("type=\"");
            reveal_strlit("imdb");
            reveal_strlit("\"");
        }
        assert("type='"@ + "imdb"@ + "'"@ =~= "type='imdb'"@) by {
            reveal_strlit("type='");
            reveal_strlit("imdb");
            reveal_strlit("'");
        }
        assert("type=\""@ + "tmdb"@ + "\""@ =~= "type=\"tmdb\""@) by {
            reveal_strlit("type=\"");
            reveal_strlit("tmdb");
            reveal_strlit("\"");
        }
        assert("type='"@ + "tmdb"@ + "'"@ =~= "type='tmdb'"@) by {
            reveal_strlit("type='");
            reveal_strlit("tmdb");
            reveal_strlit("'");
        }
    }
    while cursor <= content.len()
        invariant
            lower@ == ascii_lower(content@),
            lower@.len() == content@.len(),
            open@ == "<uniqueid"@,
            gt@ == seq!['>'],
            close_tag@ == "</uniqueid>"@,
            close_tag@.len() == 11,
            uniqueid_scan(content@, 0) == uniqueid_scan(content@, cursor as int),
            "type=\""@ + "imdb"@ + "\""@ == "type=\"imdb\""@,
            "type='"@ + "imdb"@ + "'"@ == "type='imdb'"@,
            "type=\""@ + "tmdb"@ + "\""@ == "type=\"tmdb\""@,
            "type='"@ + "tmdb"@ + "'"@ == "type='tmdb'"@,
        decreases content.len() + 1 - cursor,
    {
        let start = match find_chars_at_or_after(lower, &open, cursor) {
            Some(s) => s,
            None => {
                return None;
            },
        };
        proof {
            lemma_find_from(lower@, open@, cursor as int);
        }
        let head_end = match find_chars_at_or_after(lower, &gt, start) {
            Some(h) => h,
            None => {
                return None;
            },
        };
        proof {
            lemma_find_from(lower@, gt@, start as int);
        }
        let close = match find_chars_at_or_after(lower, &close_tag, head_end + 1) {
            Some(c) => c,
            None => {
                return None;
            },
        };
        proof {
            lemma_find_from(lower@, close_tag@, head_end + 1);
        }
        let head = slice_chars(lower, start, head_end + 1);
        let raw = slice_chars(content, head_end + 1, close);
        let value = trim_chars(&raw);
        if head_is_chars(&head, "type=\"imdb\"", "type='imdb'") {
            if let Some(id) = imdb_id_chars(&value) {
                return Some(id);
            }
        }
        if head_is_chars(&head, "type=\"tmdb\"", "type='tmdb'") {
            let compact = strip_ascii_ws_chars(&value);
            if all_digits_chars(&compact, 0) {
                assert(compact@.skip(0) =~= compact@);
                let mut out = chars_of("tmdb-");
                append_chars(&mut out, &compact);
                return Some(out);
            }
            assert(compact@.skip(0) =~= compact@);
        }
        cursor = close + 11;
    }
    None
}

pub fn nfo_provider_id_chars(content: &Vec<char>) -> (r: Option<Vec<char>>)
    ensures
        opt_chars(r) == spec_nfo_provider_id(content@),
{
    let imdb_tag = chars_of("imdbid");
    if let Some(v) = tag_value_chars(content, &imdb_tag) {
        if let Some(id) = imdb_id_chars(&v) {
            return Some(id);
        }
    }
    let tmdb_tag = chars_of("tmdbid");
    if let Some(v) = tag_value_chars(content, &tmdb_tag) {
        if all_digits_chars(&v, 0) {
            assert(v@.skip(0) =~= v@);
            let mut out = chars_of("tmdb-");
            append_chars(&mut out, &v);
            return Some(out);
        }
        assert(v@.skip(0) =~= v@);
    }
    let lower = lower_chars(content);
    uniqueid_scan_chars(content, &lower)
}

/// `extract_nfo_provider_id`.
pub fn extract_nfo_provider_id(content: &str) -> (r: Option<String>)
    ensures
        opt_text(r) == spec_nfo_provider_id(content@),
{
    let c = chars_of(content);
    match nfo_provider_id_chars(&c) {
        Some(v) => Some(string_from_chars(&v)),
        None => None,
    }
}

/// The year an NFO gives: `<year>`, else the first four characters of
/// `<premiered>`.
pub open spec fn nfo_year(content: Seq<char>) -> Option<nat> {
    let from_year = match spec_tag_value(content, "year"@) {
        Some(v) => spec_parse_year_token(v),
        None => None,
    };
    if from_year is Some {
        from_year
    } else {
        match spec_tag_value(content, "premiered"@) {
            Some(v) => if v.len() >= 4 {
                spec_parse_year_token(v.take(4))
            } else {
                None
            },
            None => None,
        }
    }
}

/// `parse_nfo_metadata_content`: the title (`<title>`, else
/// `<originaltitle>`, normalised like a file stem) must be non-empty; the
/// year and provider id are read when present; confidence 99.
pub open spec fn spec_parse_nfo(content: Seq<char>) -> Option<(Seq<char>, Option<nat>, Option<Seq<char>>, u8)> {
    let raw = match spec_tag_value(content, "title"@) {
        Some(t) => Some(t),
        None => spec_tag_value(content, "originaltitle"@),
    };
    match raw {
        None => None,
        Some(t) => {
            let title = spec_normalize_filename_stem(t);
            if title.len() == 0 {
                None
            } else {
                Some((title, nfo_year(content), spec_nfo_provider_id(content), 99u8))
            }
        },
    }
}

pub open spec fn year_nat(y: Option<u16>) -> Option<nat> {
    match y {
        Some(v) => Some(v as nat),
        None => None,
    }
}

pub open spec fn parsed_matches(p: ParsedFolderMetadata, v: (Seq<char>, Option<nat>, Option<Seq<char>>, u8)) -> bool {
    p.title@ == v.0 && year_nat(p.year) == v.1 && opt_text(p.provider_id) == v.2 && p.confidence_pct == v.3
}

fn nfo_year_chars(content: &Vec<char>) -> (r: Option<u16>)
    ensures
        year_nat(r) == nfo_year(content@),
{
    let year_tag = chars_of("year");
    if let Some(v) = tag_value_chars(content, &year_tag) {
        let t = trim_chars(&v);
        if let Some(y) = year_of_token_chars(&t) {
            return Some(y);
        }
    }
    let premiered_tag = chars_of("premiered");
    match tag_value_chars(content, &premiered_tag) {
        Some(v) => {
            if v.len() >= 4 {
                let head = slice_chars(&v, 0, 4);
                assert(head@ =~= v@.take(4));
                let t = trim_chars(&head);
                year_of_token_chars(&t)
            } else {
                None
            }
        },
        None => None,
    }
}

pub fn parse_nfo_metadata_chars(content: &Vec<char>) -> (r: Option<ParsedFolderMetadata>)
    ensures
        match (r, spec_parse_nfo(content@)) {
            (Some(p), Some(v)) => parsed_matches(p, v),
            (None, None) => true,
            _ => false,
        },
{
    let title_tag = chars_of("title");
    let raw = match tag_value_chars(content, &title_tag) {
        Some(t) => Some(t),
        None => {
            let orig_tag = chars_of("originaltitle");
            tag_value_chars(content, &orig_tag)
        },
    };
    let raw = match raw {
        Some(t) => t,
        None => {
            return None;
        },
    };
    let title = normalize_filename_stem_chars(&raw);
    if title.len() == 0 {
        return None;
    }
    let year = nfo_year_chars(content);
    let provider = match nfo_provider_id_chars(content) {
        Some(v) => Some(string_from_chars(&v)),
        None => None,
    };
    Some(
        ParsedFolderMetadata {
            title: string_from_chars(&title),
            year,
            provider_id: provider,
            confidence_pct: 99,
        },
    )
}

/// `parse_nfo_metadata_content`.
pub fn parse_nfo_metadata_content(content: &str) -> (r: Option<ParsedFolderMetadata>)
    ensures
        match (r, spec_parse_nfo(content@)) {
            (Some(p), Some(v)) => parsed_matches(p, v),
            (None, None) => true,
            _ => false,
        },
{
    let c = chars_of(content);
    parse_nfo_metadata_chars(&c)
}

// ---------------------------------------------------------------------------
// Folder names such as "Title (2024) - [imdb-tt0123]"
// ---------------------------------------------------------------------------

/// The text of a bracketed id: trimmed, lower-cased, without ASCII white
/// space and underscores.
pub open spec fn compact_id(raw: Seq<char>) -> Seq<char> {
    drop_ws_underscore(ascii_lower(trim_ws(raw)))
}

pub open spec fn drop_ws_underscore(s: Seq<char>) -> Seq<char>
    decreases s.len(),
{
    if s.len() == 0 {
        seq![]
    } else if is_ascii_ws(s.last()) || s.last() == '_' {
        drop_ws_underscore(s.drop_last())
    } else {
        drop_ws_underscore(s.drop_last()).push(s.last())
    }
}

pub open spec fn digits_nonempty(s: Seq<char>) -> bool {
    s.len() > 0 && all_digits(s)
}

/// The provider id a bracketed text names: "imdb-tt<digits>", "imdbtt<digits>",
/// "tmdbid-<digits>", "tmdbid<digits>" or "tmdb-<digits>"; the first prefix
/// that matches decides.
pub open spec fn bracket_provider(c: Seq<char>) -> Option<Seq<char>> {
    if has_prefix(c, "imdb-"@) {
        let rest = c.skip(5);
        if has_prefix(rest, "tt"@) && all_digits(rest.skip(2)) {
            Some("imdb-"@ + rest)
        } else {
            None
        }
    } else if has_prefix(c, "imdbtt"@) {
        let rest = c.skip(6);
        if digits_nonempty(rest) {
            Some("imdb-tt"@ + rest)
        } else {
            None
        }
    } else if has_prefix(c, "tmdbid-"@) {
        let rest = c.skip(7);
        if digits_nonempty(rest) {
            Some("tmdb-"@ + rest)
        } else {
            None
        }
    } else if has_prefix(c, "tmdbid"@) {
        let rest = c.skip(6);
        if digits_nonempty(rest) {
            Some("tmdb-"@ + rest)
        } else {
            None
        }
    } else if has_prefix(c, "tmdb-"@) {
        let rest = c.skip(5);
        if digits_nonempty(rest) {
            Some("tmdb-"@ + rest)
        } else {
            None
        }
    } else {
        None
    }
}

/// The first bracketed text from `cursor` on that names a provider id, with
/// the positions of its brackets.
pub open spec fn bracket_scan(w: Seq<char>, cursor: int) -> Option<(Seq<char>, int, int)>
    decreases w.len() - cursor,
{
    if cursor < 0 || cursor > w.len() {
        None
    } else {
        let start = find_from(w, seq!['['], cursor);
        if start < 0 {
            None
        } else {
            let end = find_from(w, seq![']'], start + 1);
            if end < 0 {
                None
            } else {
                match bracket_provider(compact_id(w.subrange(start + 1, end))) {
                    Some(id) => Some((id, start, end)),
                    None => if end + 1 <= cursor || end + 1 > w.len() {
                        None
                    } else {
                        bracket_scan(w, end + 1)
                    },
                }
            }
        }
    }
}

/// `extract_provider_id`: the id of the first usable bracket, and the text
/// with that bracket removed, normalised like a file stem.
pub open spec fn spec_extract_provider_id(input: Seq<char>) -> (Option<Seq<char>>, Seq<char>) {
    match bracket_scan(input, 0) {
        Some((id, start, end)) => (
            Some(id),
            spec_normalize_filename_stem(input.take(start) + input.skip(end + 1)),
        ),
        None => (None, spec_normalize_filename_stem(input)),
    }
}

fn drop_ws_underscore_chars(v: &Vec<char>) -> (r: Vec<char>)
    ensures
        r@ == drop_ws_underscore(v@),
{
    let mut out: Vec<char> = Vec::new();
    let mut i: usize = 0;
    while i < v.len()
        invariant
            i <= v.len(),
            out@ == drop_ws_underscore(v@.take(i as int)),
        decreases v.len() - i,
    {
        assert(v@.take(i + 1).drop_last() =~= v@.take(i as int));
        assert(v@.take(i + 1).last() == v@[i as int]);
        let c = v[i];
        if !(c == ' ' || c == '\t' || c == '\n' || c == '\x0C' || c == '\r' || c == '_') {
            out.push(c);
        }
        i += 1;
    }
    assert(v@.take(v.len() as int) =~= v@);
    out
}

fn digits_nonempty_from(v: &Vec<char>, from: usize) -> (r: bool)
    requires
        from <= v.len(),
    ensures
        r == digits_nonempty(v@.skip(from as int)),
{
    from < v.len() && all_digits_chars(v, from)
}

fn prefixed(prefix: &str, rest: &Vec<char>, from: usize) -> (r: Vec<char>)
    requires
        from <= rest.len(),
    ensures
        r@ == prefix@ + rest@.skip(from as int),
{
    let mut out = chars_of(prefix);
    let tail = slice_chars(rest, from, rest.len());
    append_chars(&mut out, &tail);
    assert(tail@ =~= rest@.skip(from as int));
    out
}

fn bracket_provider_chars(c: &Vec<char>) -> (r: Option<Vec<char>>)
    ensures
        opt_chars(r) == bracket_provider(c@),
{
    proof {
        reveal_strlit("imdb-");
        reveal_strlit("imdbtt");
        reveal_strlit("tmdbid-");
        reveal_strlit("tmdbid");
        reveal_strlit("tmdb-");
        reveal_strlit("tt");
    }
    if starts_with_chars(c, &chars_of("imdb-")) {
        let rest = slice_chars(c, 5, c.len());
        assert(rest@ =~= c@.skip(5));
        if starts_with_chars(&rest, &chars_of("tt")) && all_digits_chars(&rest, 2) {
            return Some(prefixed("imdb-", &rest, 0));
        }
        return None;
    }
    if starts_with_chars(c, &chars_of("imdbtt")) {
        if digits_nonempty_from(c, 6) {
            return Some(prefixed("imdb-tt", c, 6));
        }
        return None;
    }
    if starts_with_chars(c, &chars_of("tmdbid-")) {
        if digits_nonempty_from(c, 7) {
            return Some(prefixed("tmdb-", c, 7));
        }
        return None;
    }
    if starts_with_chars(c, &chars_of("tmdbid")) {
        if digits_nonempty_from(c, 6) {
            return Some(prefixed("tmdb-", c, 6));
        }
        return None;
    }
    if starts_with_chars(c, &chars_of("tmdb-")) {
        if digits_nonempty_from(c, 5) {
            return Some(prefixed("tmdb-", c, 5));
        }
        return None;
    }
    None
}

fn one_char(c: char) -> (r: Vec<char>)
    ensures
        r@ == seq![c],
{
    let mut v: Vec<char> = Vec::new();
    v.push(c);
    assert(v@ =~= seq![c]);
    v
}

pub fn extract_provider_id_chars(input: &Vec<char>) -> (r: (Option<Vec<char>>, Vec<char>))
    ensures
        (opt_chars(r.0), r.1@) == spec_extract_provider_id(input@),
{
    let open = one_char('[');
    let close = one_char(']');
    let mut cursor: usize = 0;
    while cursor <= input.len()
        invariant
            open@ == seq!['['],
            close@ == seq![']'],
            bracket_scan(input@, 0) == bracket_scan(input@, cursor as int),
        ensures
            bracket_scan(input@, 0) is None,
        decreases input.len() + 1 - cursor,
    {
        let start = match find_chars_at_or_after(input, &open, cursor) {
            Some(s) => s,
            None => {
                break;
            },
        };
        proof {
            lemma_find_from(input@, open@, cursor as int);
        }
        let end = match find_chars_at_or_after(input, &close, start + 1) {
            Some(e) => e,
            None => {
                break;
            },
        };
        proof {
            lemma_find_from(input@, close@, start + 1);
        }
        let raw = slice_chars(input, start + 1, end);
        let compact = drop_ws_underscore_chars(&lower_chars(&trim_chars(&raw)));
        if let Some(id) = bracket_provider_chars(&compact) {
            let mut working = slice_chars(input, 0, start);
            let tail = slice_chars(input, end + 1, input.len());
            append_chars(&mut working, &tail);
            assert(working@ =~= input@.take(start as int) + input@.skip(end + 1));
            return (Some(id), normalize_filename_stem_chars(&working));
        }
        cursor = end + 1;
    }
    (None, normalize_filename_stem_chars(input))
}

/// The first whitespace-separated token that spells a year.
pub open spec fn first_year_token(tokens: Seq<Seq<char>>) -> Option<Seq<char>>
    decreases tokens.len(),
{
    if tokens.len() == 0 {
        None
    } else if crate::naming::year_of_token(tokens[0]) is Some {
        Some(tokens[0])
    } else {
        first_year_token(tokens.drop_first())
    }
}

/// `str::replace`: every occurrence of `p`, scanning from the left without
/// overlap, replaced by `r`.
pub open spec fn replace_all(s: Seq<char>, p: Seq<char>, r: Seq<char>) -> Seq<char>
    decreases s.len(),
{
    if s.len() == 0 {
        seq![]
    } else if p.len() > 0 && has_prefix(s, p) {
        r + replace_all(s.skip(p.len() as int), p, r)
    } else {
        seq![s[0]] + replace_all(s.skip(1), p, r)
    }
}

/// `extract_year`: a year in the last parentheses wins and the parenthesised
/// part is removed; otherwise the first year token, every occurrence of which
/// becomes a space; the rest is normalised like a file stem.
pub open spec fn spec_extract_year(input: Seq<char>) -> (Option<nat>, Seq<char>) {
    let k = crate::paths::last_index_of(input, '(');
    let e = if k >= 0 {
        find_from(input, seq![')'], k + 1)
    } else {
        -1
    };
    let paren_year = if k >= 0 && e >= 0 {
        spec_parse_year_token(input.subrange(k + 1, e))
    } else {
        None
    };
    if paren_year is Some {
        (paren_year, spec_normalize_filename_stem(input.take(k) + input.skip(e + 1)))
    } else {
        match first_year_token(crate::text::split_ws(input)) {
            Some(tok) => (
                crate::naming::year_of_token(tok),
                spec_normalize_filename_stem(replace_all(input, tok, seq![' '])),
            ),
            None => (None, spec_normalize_filename_stem(input)),
        }
    }
}

fn replace_all_chars(s: &Vec<char>, p: &Vec<char>, r: &Vec<char>) -> (out: Vec<char>)
    requires
        p.len() > 0,
    ensures
        out@ == replace_all(s@, p@, r@),
{
    let mut out: Vec<char> = Vec::new();
    let mut i: usize = 0;
    assert(s@.skip(0) =~= s@);
    while i < s.len()
        invariant
            i <= s.len(),
            p@.len() > 0,
            out@ + replace_all(s@.skip(i as int), p@, r@) == replace_all(s@, p@, r@),
        decreases s.len() - i,
    {
        let ghost rest = s@.skip(i as int);
        if crate::text::occurs_at_exec(s, p, i) {
            assert(rest.subrange(0, p@.len() as int) =~= s@.subrange(i as int, i + p@.len()));
            assert(has_prefix(rest, p@));
            assert(rest.skip(p@.len() as int) =~= s@.skip(i + p@.len()));
            append_chars(&mut out, r);
            assert(out@ + replace_all(s@.skip(i + p@.len()), p@, r@) =~= replace_all(s@, p@, r@));
            i = i + p.len();
        } else {
            assert(!has_prefix(rest, p@)) by {
                if has_prefix(rest, p@) {
                    assert(rest.subrange(0, p@.len() as int) =~= s@.subrange(
                        i as int,
                        i + p@.len(),
                    ));
                }
            }
            assert(rest[0] == s@[i as int]);
            assert(rest.skip(1) =~= s@.skip(i + 1));
            out.push(s[i]);
            assert(out@ + replace_all(s@.skip(i + 1), p@, r@) =~= replace_all(s@, p@, r@));
            i += 1;
        }
    }
    assert(s@.skip(i as int) =~= Seq::<char>::empty());
    assert(out@ + replace_all(s@.skip(i as int), p@, r@) =~= out@);
    out
}

fn first_year_token_chars(tokens: &Vec<Vec<char>>) -> (r: Option<usize>)
    ensures
        match r {
            Some(k) => k < tokens@.len() && first_year_token(crate::text::views(tokens@)) == Some(
                tokens@[k as int]@,
            ),
            None => first_year_token(crate::text::views(tokens@)) is None,
        },
{
    let ghost toks = crate::text::views(tokens@);
    let mut i: usize = 0;
    assert(toks.skip(0) =~= toks);
    while i < tokens.len()
        invariant
            i <= tokens.len(),
            toks == crate::text::views(tokens@),
            first_year_token(toks) == first_year_token(toks.skip(i as int)),
        decreases tokens.len() - i,
    {
        assert(toks.skip(i as int)[0] == tokens@[i as int]@);
        assert(toks.skip(i as int).drop_first() =~= toks.skip(i + 1));
        if year_of_token_chars(&tokens[i]).is_some() {
            return Some(i);
        }
        i += 1;
    }
    assert(toks.skip(i as int).len() == 0);
    None
}

pub fn extract_year_chars(input: &Vec<char>) -> (r: (Option<u16>, Vec<char>))
    ensures
        (year_nat(r.0), r.1@) == spec_extract_year(input@),
{
    let close = one_char(')');
    match crate::paths::last_index_in(input, input.len(), '(') {
        Some(k) => {
            assert(input@.subrange(0, input.len() as int) =~= input@);
            match find_chars_at_or_after(input, &close, k + 1) {
                Some(e) => {
                    proof {
                        lemma_find_from(input@, close@, k + 1);
                    }
                    let cand = slice_chars(input, k + 1, e);
                    let t = trim_chars(&cand);
                    if let Some(y) = year_of_token_chars(&t) {
                        let mut working = slice_chars(input, 0, k);
                        let tail = slice_chars(input, e + 1, input.len());
                        append_chars(&mut working, &tail);
                        assert(working@ =~= input@.take(k as int) + input@.skip(e + 1));
                        return (Some(y), normalize_filename_stem_chars(&working));
                    }
                },
                None => {},
            }
        },
        None => {
            assert(input@.subrange(0, input.len() as int) =~= input@);
        },
    }
    let tokens = crate::naming::split_whitespace(input);
    match first_year_token_chars(&tokens) {
        Some(i) => {
            let y = year_of_token_chars(&tokens[i]);
            proof {
                let tok = tokens@[i as int]@;
                assert(crate::text::split_ws(input@)[i as int] == tok);
                lemma_split_ws_nonempty(input@, i as int);
            }
            let sp = one_char(' ');
            let replaced = replace_all_chars(input, &tokens[i], &sp);
            (y, normalize_filename_stem_chars(&replaced))
        },
        None => (None, normalize_filename_stem_chars(input)),
    }
}

proof fn lemma_split_ws_nonempty(s: Seq<char>, i: int)
    requires
        0 <= i < crate::text::split_ws(s).len(),
    ensures
        crate::text::split_ws(s)[i].len() > 0,
    decreases s.len(),
{
    let p = crate::text::split_ws(s.drop_last());
    if s.len() > 0 {
        if i < p.len() {
            lemma_split_ws_nonempty(s.drop_last(), i);
        }
    }
}

// ---------------------------------------------------------------------------
// Local provider ids
// ---------------------------------------------------------------------------

/// What the hasher is fed for a title and year: the lower-cased title as a
/// `str` hashes, then the year's two bytes in the machine's order (least
/// significant first when `little`).
pub open spec fn local_id_writes(title: Seq<char>, year: u16, little: bool) -> Seq<Seq<u8>> {
    str_writes(ascii_lower(title)).push(u16_bytes(year, little))
}

/// `build_local_provider_id`: "tmdb-local-" and the low 32 bits, in eight hex
/// digits, of the default hash of the lower-cased title and the year (0 when
/// unknown), on a machine with the given byte order.
pub open spec fn spec_local_provider_id(title: Seq<char>, year: Option<nat>, little: bool) -> Seq<char> {
    let y: u16 = match year {
        Some(v) => v as u16,
        None => 0,
    };
    "tmdb-local-"@ + crate::text::hex_fixed(
        (DefaultHasher::spec_finish(local_id_writes(title, y, little)) as nat) % 0x1_0000_0000,
        8,
    )
}

/// The local provider id as a machine with the given byte order computes it.
pub fn local_provider_id_in_order(title: &str, year: Option<u16>, little: bool) -> (r: String)
    ensures
        r@ == spec_local_provider_id(title@, year_nat(year), little),
{
    let y: u16 = match year {
        Some(v) => v,
        None => 0,
    };
    let lower = string_from_chars(&lower_chars(&chars_of(title)));
    let mut hasher = DefaultHasher::new();
    write_str(&mut hasher, lower.as_str());
    write_u16_in(&mut hasher, y, little);
    assert(hasher@ =~= local_id_writes(title@, y, little));
    let h = hasher.finish();
    let low = h % 0x1_0000_0000;
    let hex = crate::text::hex_fixed_chars(low, 8);
    let mut out = chars_of("tmdb-local-");
    append_chars(&mut out, &hex);
    string_from_chars(&out)
}

/// The local provider id of a title and year on this machine (the year's
/// bytes are hashed in the machine's order, so the id is the one for one of
/// the two orders).
pub fn build_local_provider_id(title: &str, year: Option<u16>) -> (r: String)
    ensures
        r@ == spec_local_provider_id(title@, year_nat(year), true)
            || r@ == spec_local_provider_id(title@, year_nat(year), false),
{
    let little = native_little_endian();
    local_provider_id_in_order(title, year, little)
}

/// `extract_provider_id`.
pub fn extract_provider_id(input: &str) -> (r: (Option<String>, String))
    ensures
        (opt_text(r.0), r.1@) == spec_extract_provider_id(input@),
{
    let v = chars_of(input);
    let (id, rest) = extract_provider_id_chars(&v);
    let id = match id {
        Some(x) => Some(string_from_chars(&x)),
        None => None,
    };
    (id, string_from_chars(&rest))
}

/// `extract_year`.
pub fn extract_year(input: &str) -> (r: (Option<u16>, String))
    ensures
        (year_nat(r.0), r.1@) == spec_extract_year(input@),
{
    let v = chars_of(input);
    let (y, rest) = extract_year_chars(&v);
    (y, string_from_chars(&rest))
}

/// `parse_movie_folder_pattern`: a folder named after a movie carries a
/// title and a year or provider id; confidence 68, plus 17 with a year and
/// 12 with a provider id.
pub open spec fn spec_folder_pattern(folder: Seq<char>) -> Option<(Seq<char>, Option<nat>, Option<Seq<char>>, u8)> {
    if trim_ws(folder).len() == 0 {
        None
    } else {
        let (pid, cleaned) = spec_extract_provider_id(folder);
        let (year, cleaned_year) = spec_extract_year(cleaned);
        let title = trim_ws(cleaned_year);
        if title.len() == 0 || (year is None && pid is None) {
            None
        } else {
            Some(
                (
                    title,
                    year,
                    pid,
                    (68 + (if year is Some {
                        17int
                    } else {
                        0int
                    }) + (if pid is Some {
                        12int
                    } else {
                        0int
                    })) as u8,
                ),
            )
        }
    }
}

pub fn folder_pattern_chars(folder: &Vec<char>) -> (r: Option<ParsedFolderMetadata>)
    ensures
        match (r, spec_folder_pattern(folder@)) {
            (Some(p), Some(v)) => parsed_matches(p, v),
            (None, None) => true,
            _ => false,
        },
{
    if trim_chars(folder).len() == 0 {
        return None;
    }
    let (pid, cleaned) = extract_provider_id_chars(folder);
    let (year, cleaned_year) = extract_year_chars(&cleaned);
    let title = trim_chars(&cleaned_year);
    if title.len() == 0 || (year.is_none() && pid.is_none()) {
        return None;
    }
    let mut confidence: u8 = 68;
    if year.is_some() {
        confidence = confidence + 17;
    }
    if pid.is_some() {
        confidence = confidence + 12;
    }
    Some(
        ParsedFolderMetadata {
            title: string_from_chars(&title),
            year,
            provider_id: match pid {
                Some(x) => Some(string_from_chars(&x)),
                None => None,
            },
            confidence_pct: confidence,
        },
    )
}

/// `parse_movie_folder_pattern`: "Zootopia 2 (2025) - [imdb-tt26443597]"
/// reads as "Zootopia 2", 2025, "imdb-tt26443597".
pub fn parse_movie_folder_pattern(folder_name: &str) -> (r: Option<ParsedFolderMetadata>)
    ensures
        match (r, spec_folder_pattern(folder_name@)) {
            (Some(p), Some(v)) => parsed_matches(p, v),
            (None, None) => true,
            _ => false,
        },
{
    let v = chars_of(folder_name);
    folder_pattern_chars(&v)
}

/// The name of the folder holding the media file.
pub open spec fn parent_folder_name(media_path: Seq<char>) -> Option<Seq<char>> {
    match crate::paths::path_parent(media_path) {
        Some(p) => crate::paths::path_file_name(p),
        None => None,
    }
}

/// `parse_folder_metadata_from_media_path`: the pattern of the parent folder's name.
pub open spec fn spec_folder_metadata(media_path: Seq<char>) -> Option<(Seq<char>, Option<nat>, Option<Seq<char>>, u8)> {
    match parent_folder_name(media_path) {
        Some(n) => spec_folder_pattern(n),
        None => None,
    }
}

pub fn parse_folder_metadata_from_media_path(media_path: &str) -> (r: Option<ParsedFolderMetadata>)
    ensures
        match (r, spec_folder_metadata(media_path@)) {
            (Some(p), Some(v)) => parsed_matches(p, v),
            (None, None) => true,
            _ => false,
        },
{
    let p = chars_of(media_path);
    let parent = match crate::paths::parent_of(&p) {
        Some(x) => x,
        None => {
            return None;
        },
    };
    let name = match crate::paths::file_name_of(&parent) {
        Some(n) => n,
        None => {
            return None;
        },
    };
    folder_pattern_chars(&name)
}

/// The NFO files that may describe a media file, in the order they are
/// tried: "<stem>.nfo" and "movie.nfo" beside it.
pub open spec fn spec_nfo_candidates(media_path: Seq<char>) -> Option<(Seq<char>, Seq<char>)> {
    match (crate::paths::path_parent(media_path), crate::paths::path_file_stem(media_path)) {
        (Some(parent), Some(stem)) => Some(
            (
                crate::paths::path_join(parent, stem + ".nfo"@),
                crate::paths::path_join(parent, "movie.nfo"@),
            ),
        ),
        _ => None,
    }
}

pub fn nfo_candidate_paths(media_path: &str) -> (r: Option<(String, String)>)
    ensures
        match (r, spec_nfo_candidates(media_path@)) {
            (Some((a, b)), Some((x, y))) => a@ == x && b@ == y,
            (None, None) => true,
            _ => false,
        },
{
    let p = chars_of(media_path);
    let parent = match crate::paths::parent_of(&p) {
        Some(x) => x,
        None => {
            return None;
        },
    };
    let mut stem = match crate::paths::file_stem_of(&p) {
        Some(s) => s,
        None => {
            return None;
        },
    };
    crate::text::append_str(&mut stem, ".nfo");
    let a = crate::paths::join_chars(&parent, &stem);
    let b = crate::paths::join_chars(&parent, &chars_of("movie.nfo"));
    Some((string_from_chars(&a), string_from_chars(&b)))
}

/// The first readable candidate whose text is not blank and parses.
pub open spec fn spec_nfo_metadata(contents: Seq<Option<String>>) -> Option<(Seq<char>, Option<nat>, Option<Seq<char>>, u8)>
    decreases contents.len(),
{
    if contents.len() == 0 {
        None
    } else {
        let here = match contents[0] {
            Some(c) => if trim_ws(c@).len() == 0 {
                None
            } else {
                spec_parse_nfo(c@)
            },
            None => None,
        };
        if here is Some {
            here
        } else {
            spec_nfo_metadata(contents.drop_first())
        }
    }
}

/// `parse_nfo_metadata_for_media_path` over the text of each candidate NFO
/// (`None` where it is not a readable file).
pub fn parse_nfo_metadata_for_media_path(contents: &Vec<Option<String>>) -> (r: Option<ParsedFolderMetadata>)
    ensures
        match (r, spec_nfo_metadata(contents@)) {
            (Some(p), Some(v)) => parsed_matches(p, v),
            (None, None) => true,
            _ => false,
        },
{
    let mut i: usize = 0;
    assert(contents@.skip(0) =~= contents@);
    while i < contents.len()
        invariant
            i <= contents.len(),
            spec_nfo_metadata(contents@) == spec_nfo_metadata(contents@.skip(i as int)),
        decreases contents.len() - i,
    {
        assert(contents@.skip(i as int)[0] == contents@[i as int]);
        assert(contents@.skip(i as int).drop_first() =~= contents@.skip(i + 1));
        if let Some(c) = &contents[i] {
            let v = chars_of(c.as_str());
            if trim_chars(&v).len() > 0 {
                if let Some(p) = parse_nfo_metadata_chars(&v) {
                    return Some(p);
                }
            }
        }
        i += 1;
    }
    assert(contents@.skip(i as int).len() == 0);
    None
}

/// `normalize_optional_string`: trimmed, and `None` when blank.
pub open spec fn spec_normalize_optional(v: Option<String>) -> Option<Seq<char>> {
    match v {
        Some(s) => if trim_ws(s@).len() == 0 {
            None
        } else {
            Some(trim_ws(s@))
        },
        None => None,
    }
}

pub fn normalize_optional_string(value: &Option<String>) -> (r: Option<String>)
    ensures
        opt_text(r) == spec_normalize_optional(*value),
{
    match value {
        Some(s) => {
            let t = trim_chars(&chars_of(s.as_str()));
            if t.len() == 0 {
                None
            } else {
                Some(string_from_chars(&t))
            }
        },
        None => None,
    }
}

// ---------------------------------------------------------------------------
// Metadata candidates
// ---------------------------------------------------------------------------

/// Values a user gave to override what is inferred.
pub struct MetadataOverride {
    pub title: Option<String>,
    pub year: Option<u16>,
    pub provider_id: Option<String>,
}

/// The metadata inferred for a media file; confidence in hundredths.
#[derive(Debug)]
pub struct MetadataCandidate {
    pub title: String,
    pub year: Option<u16>,
    pub provider_id: String,
    pub confidence_pct: u8,
}

/// Release-noise words left out of an inferred title (lower-cased).
pub open spec fn is_title_noise(t: Seq<char>) -> bool {
    ||| t == "2160p"@
    ||| t == "1080p"@
    ||| t == "720p"@
    ||| t == "480p"@
    ||| t == "bluray"@
    ||| t == "webrip"@
    ||| t == "web"@
    ||| t == "x264"@
    ||| t == "x265"@
    ||| t == "hevc"@
    ||| t == "h264"@
    ||| t == "dvdrip"@
    ||| t == "remux"@
    ||| t == "hdr"@
    ||| t == "proper"@
    ||| t == "repack"@
}

fn title_noise(t: &Vec<char>) -> (r: bool)
    ensures
        r == is_title_noise(t@),
{
    chars_eq_str(t, "2160p") || chars_eq_str(t, "1080p") || chars_eq_str(t, "720p")
        || chars_eq_str(t, "480p") || chars_eq_str(t, "bluray") || chars_eq_str(t, "webrip")
        || chars_eq_str(t, "web") || chars_eq_str(t, "x264") || chars_eq_str(t, "x265")
        || chars_eq_str(t, "hevc") || chars_eq_str(t, "h264") || chars_eq_str(t, "dvdrip")
        || chars_eq_str(t, "remux") || chars_eq_str(t, "hdr") || chars_eq_str(t, "proper")
        || chars_eq_str(t, "repack")
}

/// The year of the first token that spells one.
pub open spec fn token_year(tokens: Seq<Seq<char>>) -> Option<nat> {
    match first_year_token(tokens) {
        Some(t) => crate::naming::year_of_token(t),
        None => None,
    }
}

/// The tokens kept in an inferred title: neither the year nor noise.
pub open spec fn inferred_title_tokens(tokens: Seq<Seq<char>>, year: Option<nat>) -> Seq<Seq<char>>
    decreases tokens.len(),
{
    if tokens.len() == 0 {
        seq![]
    } else {
        let r = inferred_title_tokens(tokens.drop_last(), year);
        let lowered = ascii_lower(tokens.last());
        if (year matches Some(y) && lowered == crate::text::decimal(y)) || is_title_noise(lowered) {
            r
        } else {
            r.push(tokens.last())
        }
    }
}

/// A title inferred from a file stem keeps the stem's words, in order, but
/// the year and, whatever their case, the release noise 2160p, 1080p, 720p,
/// 480p, bluray, webrip, web, x264, x265, hevc, h264, dvdrip, remux, hdr,
/// proper and repack.
pub proof fn lemma_inferred_title_drops_release_noise(tokens: Seq<Seq<char>>, year: Option<nat>)
    ensures
        inferred_title_tokens(tokens, year) == tokens.filter(
            |t: Seq<char>|
                !set![
                    "2160p"@,
                    "1080p"@,
                    "720p"@,
                    "480p"@,
                    "bluray"@,
                    "webrip"@,
                    "web"@,
                    "x264"@,
                    "x265"@,
                    "hevc"@,
                    "h264"@,
                    "dvdrip"@,
                    "remux"@,
                    "hdr"@,
                    "proper"@,
                    "repack"@,
                ].contains(ascii_lower(t)) && !(year is Some && ascii_lower(t) == crate::text::decimal(
                    year->0,
                )),
        ),
    decreases tokens.len(),
{
    reveal(Seq::filter);
    if tokens.len() > 0 {
        lemma_inferred_title_drops_release_noise(tokens.drop_last(), year);
    }
}

/// The title inferred from a file stem is its words without the year and the
/// release noise, joined by single spaces, whenever any word is left.
pub proof fn lemma_stem_title_words(media_path: Seq<char>, item_uid: Seq<char>)
    ensures
        ({
            let stem = match crate::paths::path_file_stem(media_path) {
                Some(s) => s,
                None => item_uid,
            };
            let tokens = crate::text::split_ws(spec_normalize_filename_stem(stem));
            let year = token_year(tokens);
            let kept = tokens.filter(
                |t: Seq<char>|
                    !set![
                        "2160p"@,
                        "1080p"@,
                        "720p"@,
                        "480p"@,
                        "bluray"@,
                        "webrip"@,
                        "web"@,
                        "x264"@,
                        "x265"@,
                        "hevc"@,
                        "h264"@,
                        "dvdrip"@,
                        "remux"@,
                        "hdr"@,
                        "proper"@,
                        "repack"@,
                    ].contains(ascii_lower(t)) && !(year is Some && ascii_lower(t) == crate::text::decimal(
                        year->0,
                    )),
            );
            kept.len() > 0 ==> stem_inference(media_path, item_uid).0 == crate::text::join_with(kept, seq![' '])
        }),
{
    let stem = match crate::paths::path_file_stem(media_path) {
        Some(s) => s,
        None => item_uid,
    };
    let tokens = crate::text::split_ws(spec_normalize_filename_stem(stem));
    lemma_inferred_title_drops_release_noise(tokens, token_year(tokens));
}

/// Title, year and confidence inferred from the file stem (or, without one,
/// the item id): noise and the year dropped from the words; confidence 45,
/// plus 30 with a year and 15 for a title of two words or more.
pub open spec fn stem_inference(media_path: Seq<char>, item_uid: Seq<char>) -> (Seq<char>, Option<nat>, u8) {
    let stem = match crate::paths::path_file_stem(media_path) {
        Some(s) => s,
        None => item_uid,
    };
    let tokens = crate::text::split_ws(spec_normalize_filename_stem(stem));
    let year = token_year(tokens);
    let kept = inferred_title_tokens(tokens, year);
    let title = if kept.len() == 0 {
        spec_normalize_filename_stem(item_uid)
    } else {
        crate::text::join_with(kept, seq![' '])
    };
    let conf = 45 + (if year is Some {
        30int
    } else {
        0int
    }) + (if crate::text::split_ws(title).len() >= 2 {
        15int
    } else {
        0int
    });
    (title, year, conf as u8)
}

/// What is inferred before overrides: from an NFO, else from the folder
/// name, else from the file stem (no provider id then).
pub open spec fn base_inference(
    media_path: Seq<char>,
    item_uid: Seq<char>,
    nfo_contents: Seq<Option<String>>,
) -> (Seq<char>, Option<nat>, Option<Seq<char>>, u8) {
    match spec_nfo_metadata(nfo_contents) {
        Some(v) => v,
        None => match spec_folder_metadata(media_path) {
            Some(v) => v,
            None => {
                let (t, y, c) = stem_inference(media_path, item_uid);
                (t, y, None, c)
            },
        },
    }
}

pub open spec fn override_view(o: Option<&MetadataOverride>) -> (Option<Seq<char>>, Option<u16>, Option<Seq<char>>) {
    match o {
        Some(v) => (spec_normalize_optional(v.title), v.year, spec_normalize_optional(v.provider_id)),
        None => (None, None, None),
    }
}

/// `infer_metadata_candidate` (without the confidence override, which is a
/// float): non-blank override values win; a missing provider id is the
/// local id of the inferred title and year (for the given byte order).
pub open spec fn spec_infer(
    media_path: Seq<char>,
    item_uid: Seq<char>,
    o: Option<&MetadataOverride>,
    nfo_contents: Seq<Option<String>>,
    little: bool,
) -> (Seq<char>, Option<nat>, Seq<char>, u8) {
    let (t, y, p, c) = base_inference(media_path, item_uid, nfo_contents);
    let (ot, oy, op) = override_view(o);
    let provider = match p {
        Some(x) => x,
        None => spec_local_provider_id(t, y, little),
    };
    (
        match ot {
            Some(x) => x,
            None => t,
        },
        match oy {
            Some(v) => Some(v as nat),
            None => y,
        },
        match op {
            Some(x) => x,
            None => provider,
        },
        c,
    )
}

/// The byte order changes only a computed local provider id: title, year and
/// confidence come out the same.
pub proof fn lemma_infer_byte_order_moves_only_provider(
    media_path: Seq<char>,
    item_uid: Seq<char>,
    o: Option<&MetadataOverride>,
    nfo_contents: Seq<Option<String>>,
)
    ensures
        spec_infer(media_path, item_uid, o, nfo_contents, true).0 == spec_infer(media_path, item_uid, o, nfo_contents, false).0,
        spec_infer(media_path, item_uid, o, nfo_contents, true).1 == spec_infer(media_path, item_uid, o, nfo_contents, false).1,
        spec_infer(media_path, item_uid, o, nfo_contents, true).3 == spec_infer(media_path, item_uid, o, nfo_contents, false).3,
{
}

pub open spec fn candidate_view(c: MetadataCandidate) -> (Seq<char>, Option<nat>, Seq<char>, u8) {
    (c.title@, year_nat(c.year), c.provider_id@, c.confidence_pct)
}

fn stem_inference_exec(media_path: &Vec<char>, item_uid: &Vec<char>) -> (r: (Vec<char>, Option<u16>, u8))
    ensures
        (r.0@, year_nat(r.1), r.2) == stem_inference(media_path@, item_uid@),
{
    let stem = match crate::paths::file_stem_of(media_path) {
        Some(s) => s,
        None => copy_chars(item_uid),
    };
    let normalized = normalize_filename_stem_chars(&stem);
    let tokens = crate::naming::split_whitespace(&normalized);
    let ghost toks = crate::text::views(tokens@);
    let year: Option<u16> = match first_year_token_chars(&tokens) {
        Some(i) => year_of_token_chars(&tokens[i]),
        None => None,
    };
    let ghost ys = token_year(toks);
    assert(year_nat(year) == ys);
    let year_chars: Option<Vec<char>> = match year {
        Some(y) => Some(crate::text::decimal_chars(y as u64)),
        None => None,
    };
    let mut kept: Vec<Vec<char>> = Vec::new();
    let mut j: usize = 0;
    while j < tokens.len()
        invariant
            j <= tokens.len(),
            toks == crate::text::views(tokens@),
            crate::text::views(kept@) == inferred_title_tokens(toks.take(j as int), ys),
            match year_chars {
                Some(yc) => ys matches Some(y) && yc@ == crate::text::decimal(y),
                None => ys is None,
            },
        decreases tokens.len() - j,
    {
        assert(toks.take(j + 1).drop_last() =~= toks.take(j as int));
        assert(toks.take(j + 1).last() == tokens@[j as int]@);
        let lowered = lower_chars(&tokens[j]);
        let is_year = match &year_chars {
            Some(yc) => crate::text::chars_eq(&lowered, yc),
            None => false,
        };
        if !is_year && !title_noise(&lowered) {
            kept.push(copy_chars(&tokens[j]));
            assert(crate::text::views(kept@) =~= inferred_title_tokens(toks.take(j + 1), ys));
        }
        j += 1;
    }
    assert(toks.take(tokens.len() as int) =~= toks);
    let title = if kept.len() == 0 {
        normalize_filename_stem_chars(item_uid)
    } else {
        let sp = one_char(' ');
        crate::naming::join_tokens(&kept, &sp)
    };
    let words = crate::naming::split_whitespace(&title);
    let mut conf: u8 = 45;
    if year.is_some() {
        conf = conf + 30;
    }
    if words.len() >= 2 {
        conf = conf + 15;
    }
    (title, year, conf)
}

fn copy_opt_u16(v: Option<u16>) -> (r: Option<u16>)
    ensures
        r == v,
{
    v
}

/// `infer_metadata_candidate`, given the text of each candidate NFO (see
/// `nfo_candidate_paths`); a local provider id is computed on this machine,
/// whose byte order decides it.
pub fn infer_metadata_candidate(
    media_path: &str,
    item_uid: &str,
    metadata_override: Option<&MetadataOverride>,
    nfo_contents: &Vec<Option<String>>,
) -> (r: MetadataCandidate)
    ensures
        candidate_view(r) == spec_infer(media_path@, item_uid@, metadata_override, nfo_contents@, true)
            || candidate_view(r) == spec_infer(media_path@, item_uid@, metadata_override, nfo_contents@, false),
{
    let little = native_little_endian();
    infer_metadata_candidate_in_order(media_path, item_uid, metadata_override, nfo_contents, little)
}

/// `infer_metadata_candidate` for a machine with the given byte order.
pub fn infer_metadata_candidate_in_order(
    media_path: &str,
    item_uid: &str,
    metadata_override: Option<&MetadataOverride>,
    nfo_contents: &Vec<Option<String>>,
    little: bool,
) -> (r: MetadataCandidate)
    ensures
        candidate_view(r) == spec_infer(media_path@, item_uid@, metadata_override, nfo_contents@, little),
{
    let mp = chars_of(media_path);
    let uid = chars_of(item_uid);
    let (title, year, provider, conf): (String, Option<u16>, Option<String>, u8) =
        match parse_nfo_metadata_for_media_path(nfo_contents) {
        Some(p) => (p.title, p.year, p.provider_id, p.confidence_pct),
        None => match parse_folder_metadata_from_media_path(media_path) {
            Some(p) => (p.title, p.year, p.provider_id, p.confidence_pct),
            None => {
                let (t, y, c) = stem_inference_exec(&mp, &uid);
                (string_from_chars(&t), y, None, c)
            },
        },
    };
    let provider = match provider {
        Some(p) => p,
        None => local_provider_id_in_order(title.as_str(), year, little),
    };
    let (ot, oy, op) = match metadata_override {
        Some(o) => (normalize_optional_string(&o.title), copy_opt_u16(o.year), normalize_optional_string(&o.provider_id)),
        None => (None, None, None),
    };
    MetadataCandidate {
        title: match ot {
            Some(x) => x,
            None => title,
        },
        year: match oy {
            Some(v) => Some(v),
            None => year,
        },
        provider_id: match op {
            Some(x) => x,
            None => provider,
        },
        confidence_pct: conf,
    }
}

} // verus!
