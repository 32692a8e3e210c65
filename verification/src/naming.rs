use vstd::prelude::*;

use crate::paths::{file_name_of, path_file_name};
use crate::text::{
    append_chars, ascii_lower, ascii_upper, char_is_whitespace, chars_eq_str, chars_of,
    decimal, decimal_chars, decimal_padded, decimal_padded_chars, is_ascii_digit, is_ws,
    join_with, lemma_ascii_lower_idempotent, lemma_lower_char, lemma_trim_bounds, lemma_trim_lower,
    lower_char, lower_chars, split_ws, string_from_chars, trim_chars, trim_ws, upper_chars, views,
};

verus! {

// ---------------------------------------------------------------------------
// White-space runs and tokens
// ---------------------------------------------------------------------------

/// Each run of white space replaced by a single space (leading and trailing
/// runs too).
pub open spec fn collapse_ws(s: Seq<char>) -> Seq<char>
    decreases s.len(),
{
    if s.len() == 0 {
        seq![]
    } else {
        let p = collapse_ws(s.drop_last());
        let c = s.last();
        if is_ws(c) {
            if p.len() > 0 && p.last() == ' ' {
                p
            } else {
                p.push(' ')
            }
        } else {
            p.push(c)
        }
    }
}

pub open spec fn stem_sep(c: char) -> char {
    if c == '.' || c == '_' || c == '-' {
        ' '
    } else {
        c
    }
}

/// A file stem as words: `.`, `_` and `-` read as spaces, white-space runs
/// become one space, and the ends are trimmed.
pub open spec fn spec_normalize_filename_stem(s: Seq<char>) -> Seq<char> {
    trim_ws(collapse_ws(s.map_values(|c: char| stem_sep(c))))
}

/// Only single spaces between other characters, and no white space but the
/// space.
pub open spec fn single_spaced(r: Seq<char>) -> bool {
    &&& forall|i: int| 0 <= i < r.len() ==> (is_ws(#[trigger] r[i]) ==> r[i] == ' ')
    &&& forall|i: int| 0 <= i < r.len() - 1 ==> !(#[trigger] r[i] == ' ' && r[i + 1] == ' ')
}

/// What a normalised stem looks like: no `.`, `_` or `-`, words separated by
/// single spaces, no space at either end.
pub open spec fn is_normal_stem(r: Seq<char>) -> bool {
    &&& forall|i: int| 0 <= i < r.len() ==> #[trigger] r[i] != '.' && r[i] != '_' && r[i] != '-'
    &&& single_spaced(r)
    &&& r.len() > 0 ==> r[0] != ' ' && r.last() != ' '
}

pub open spec fn is_stem_sep(c: char) -> bool {
    c == '.' || c == '_' || c == '-'
}

proof fn lemma_collapse_shape(x: Seq<char>)
    requires
        forall|i: int| 0 <= i < x.len() ==> !is_stem_sep(#[trigger] x[i]),
    ensures
        single_spaced(collapse_ws(x)),
        forall|i: int| 0 <= i < collapse_ws(x).len() ==> !is_stem_sep(#[trigger] collapse_ws(x)[i]),
    decreases x.len(),
{
    if x.len() > 0 {
        let y = x.drop_last();
        assert forall|i: int| 0 <= i < y.len() implies !is_stem_sep(#[trigger] y[i]) by {
            assert(y[i] == x[i]);
        }
        lemma_collapse_shape(y);
        assert(!is_stem_sep(x[x.len() - 1]));
    }
}

proof fn lemma_collapse_identity(r: Seq<char>)
    requires
        single_spaced(r),
    ensures
        collapse_ws(r) == r,
    decreases r.len(),
{
    if r.len() > 0 {
        let p = r.drop_last();
        assert(single_spaced(p)) by {
            assert forall|i: int| 0 <= i < p.len() - 1 implies !(#[trigger] p[i] == ' ' && p[i + 1] == ' ') by {
                assert(p[i] == r[i] && p[i + 1] == r[i + 1]);
            }
            assert forall|i: int| 0 <= i < p.len() implies (is_ws(#[trigger] p[i]) ==> p[i] == ' ') by {
                assert(p[i] == r[i]);
            }
        }
        lemma_collapse_identity(p);
        if p.len() > 0 {
            assert(p.last() == r[r.len() - 2]);
        }
        assert(p.push(r.last()) =~= r);
    }
}

/// A normalised stem has no `.`, `_` or `-`, keeps only single spaces
/// between words and none at its ends; normalising it again changes nothing.
pub proof fn lemma_normalized_stem_shape(s: Seq<char>)
    ensures
        is_normal_stem(spec_normalize_filename_stem(s)),
        spec_normalize_filename_stem(spec_normalize_filename_stem(s)) == spec_normalize_filename_stem(s),
{
    let m = s.map_values(|c: char| stem_sep(c));
    assert forall|i: int| 0 <= i < m.len() implies !is_stem_sep(#[trigger] m[i]) by {
        assert(m[i] == stem_sep(s[i]));
    }
    let x = collapse_ws(m);
    lemma_collapse_shape(m);
    let ab = lemma_trim_bounds(x);
    let r = trim_ws(x);
    assert forall|i: int| 0 <= i < r.len() implies #[trigger] r[i] != '.' && r[i] != '_' && r[i] != '-' by {
        assert(r[i] == x[ab.0 + i]);
        assert(!is_stem_sep(x[ab.0 + i]));
    }
    assert forall|i: int| 0 <= i < r.len() implies (is_ws(#[trigger] r[i]) ==> r[i] == ' ') by {
        assert(r[i] == x[ab.0 + i]);
    }
    assert forall|i: int| 0 <= i < r.len() - 1 implies !(#[trigger] r[i] == ' ' && r[i + 1] == ' ') by {
        assert(r[i] == x[ab.0 + i] && r[i + 1] == x[ab.0 + i + 1]);
    }
    assert(is_normal_stem(r));
    let m2 = r.map_values(|c: char| stem_sep(c));
    assert(m2 =~= r);
    lemma_collapse_identity(r);
    if r.len() > 0 {
        assert(!is_ws(r[0]) && !is_ws(r.last()));
    } else {
        assert(trim_ws(r) =~= r);
    }
}

/// The characters of a stem that are neither separators nor white space, in order.
pub open spec fn word_chars(s: Seq<char>) -> Seq<char>
    decreases s.len(),
{
    if s.len() == 0 {
        seq![]
    } else {
        word_chars(s.drop_last()) + if !is_stem_sep(s.last()) && !is_ws(s.last()) {
            seq![s.last()]
        } else {
            seq![]
        }
    }
}

proof fn lemma_word_chars_concat(a: Seq<char>, b: Seq<char>)
    ensures
        word_chars(a + b) == word_chars(a) + word_chars(b),
    decreases b.len(),
{
    if b.len() == 0 {
        assert(a + b =~= a);
        assert(word_chars(a) + word_chars(b) =~= word_chars(a));
    } else {
        lemma_word_chars_concat(a, b.drop_last());
        assert((a + b).drop_last() =~= a + b.drop_last());
        assert((a + b).last() == b.last());
        assert(word_chars(a + b) =~= word_chars(a) + word_chars(b));
    }
}

proof fn lemma_word_chars_map(s: Seq<char>)
    ensures
        word_chars(s.map_values(|c: char| stem_sep(c))) == word_chars(s),
    decreases s.len(),
{
    if s.len() > 0 {
        let m = s.map_values(|c: char| stem_sep(c));
        assert(m.drop_last() =~= s.drop_last().map_values(|c: char| stem_sep(c)));
        assert(m.last() == stem_sep(s.last()));
        lemma_word_chars_map(s.drop_last());
    }
}

proof fn lemma_word_chars_collapse(x: Seq<char>)
    ensures
        word_chars(collapse_ws(x)) == word_chars(x),
    decreases x.len(),
{
    if x.len() > 0 {
        lemma_word_chars_collapse(x.drop_last());
        let p = collapse_ws(x.drop_last());
        assert(p.push(' ').drop_last() =~= p);
        assert(p.push(x.last()).drop_last() =~= p);
        assert(word_chars(p.push(' ')) =~= word_chars(p));
    }
}

proof fn lemma_word_chars_trim_start(s: Seq<char>)
    ensures
        word_chars(crate::text::trim_start_ws(s)) == word_chars(s),
    decreases s.len(),
{
    if s.len() > 0 && is_ws(s[0]) {
        lemma_word_chars_trim_start(s.drop_first());
        assert(s =~= seq![s[0]] + s.drop_first());
        lemma_word_chars_concat(seq![s[0]], s.drop_first());
        let one = seq![s[0]];
        assert(one.drop_last() =~= Seq::<char>::empty());
        assert(one.last() == s[0]);
        assert(word_chars(one.drop_last()) == Seq::<char>::empty());
        assert(word_chars(one) =~= Seq::<char>::empty());
        assert(word_chars(s) =~= word_chars(s.drop_first()));
    }
}

proof fn lemma_word_chars_trim_end(s: Seq<char>)
    ensures
        word_chars(crate::text::trim_end_ws(s)) == word_chars(s),
    decreases s.len(),
{
    if s.len() > 0 && is_ws(s.last()) {
        lemma_word_chars_trim_end(s.drop_last());
        assert(word_chars(s) =~= word_chars(s.drop_last()));
    }
}

/// Normalising a stem keeps its words: dropping every separator and white
/// space character from the stem and from its normal form gives the same text.
pub proof fn lemma_normalized_stem_keeps_words(s: Seq<char>)
    ensures
        word_chars(spec_normalize_filename_stem(s)) == word_chars(s),
{
    let m = s.map_values(|c: char| stem_sep(c));
    lemma_word_chars_map(s);
    lemma_word_chars_collapse(m);
    let x = collapse_ws(m);
    lemma_word_chars_trim_start(x);
    lemma_word_chars_trim_end(crate::text::trim_start_ws(x));
}

proof fn lemma_collapse_lower(x: Seq<char>)
    ensures
        collapse_ws(ascii_lower(x)) == ascii_lower(collapse_ws(x)),
    decreases x.len(),
{
    if x.len() > 0 {
        let y = x.drop_last();
        assert(ascii_lower(x).drop_last() =~= ascii_lower(y));
        assert(ascii_lower(x).last() == lower_char(x.last()));
        lemma_collapse_lower(y);
        lemma_lower_char(x.last());
        let p = collapse_ws(y);
        if p.len() > 0 {
            lemma_lower_char(p.last());
            assert(ascii_lower(p).last() == lower_char(p.last()));
        }
        assert(ascii_lower(p.push(' ')) =~= ascii_lower(p).push(' '));
        assert(ascii_lower(p.push(x.last())) =~= ascii_lower(p).push(lower_char(x.last())));
    } else {
        assert(ascii_lower(x) =~= x);
    }
}

/// The duplicate key ignores ASCII case and which separator a stem uses:
/// writing every `.`, `_` and `-` as a space and lower-casing leaves the key
/// as it was.
pub proof fn lemma_duplicate_key_ignores_case_and_separators(stem: Seq<char>)
    ensures
        spec_duplicate_key(ascii_lower(stem.map_values(|c: char| stem_sep(c)))) == spec_duplicate_key(stem),
{
    let m = stem.map_values(|c: char| stem_sep(c));
    let t = ascii_lower(m);
    let mt = t.map_values(|c: char| stem_sep(c));
    assert forall|i: int| 0 <= i < mt.len() implies #[trigger] mt[i] == t[i] by {
        lemma_lower_char(m[i]);
    }
    assert(mt =~= t);
    lemma_collapse_lower(m);
    lemma_trim_lower(collapse_ws(m));
    lemma_ascii_lower_idempotent(spec_normalize_filename_stem(stem));
    assert(ascii_lower(spec_normalize_filename_stem(t)) == ascii_lower(spec_normalize_filename_stem(stem)));
}

pub fn normalize_filename_stem_chars(stem: &Vec<char>) -> (r: Vec<char>)
    ensures
        r@ == spec_normalize_filename_stem(stem@),
{
    let ghost m = stem@.map_values(|c: char| stem_sep(c));
    let mut out: Vec<char> = Vec::new();
    let mut prev_space = false;
    let mut i: usize = 0;
    while i < stem.len()
        invariant
            i <= stem.len(),
            m == stem@.map_values(|c: char| stem_sep(c)),
            out@ == collapse_ws(m.take(i as int)),
            prev_space == (out@.len() > 0 && out@.last() == ' '),
        decreases stem.len() - i,
    {
        let ch = stem[i];
        let mapped = if ch == '.' || ch == '_' || ch == '-' {
            ' '
        } else {
            ch
        };
        assert(m.take(i + 1).drop_last() =~= m.take(i as int));
        assert(m.take(i + 1).last() == mapped);
        if char_is_whitespace(mapped) {
            if !prev_space {
                out.push(' ');
            }
            prev_space = true;
        } else {
            out.push(mapped);
            prev_space = false;
        }
        i += 1;
    }
    assert(m.take(stem.len() as int) =~= m);
    trim_chars(&out)
}

/// `normalize_filename_stem`: "Movie.Name_2024-1080p" reads "Movie Name 2024 1080p".
pub fn normalize_filename_stem(stem: &str) -> (r: String)
    ensures
        r@ == spec_normalize_filename_stem(stem@),
{
    let v = chars_of(stem);
    let n = normalize_filename_stem_chars(&v);
    string_from_chars(&n)
}

proof fn lemma_split_nonempty(s: Seq<char>)
    requires
        s.len() > 0,
        !is_ws(s.last()),
    ensures
        split_ws(s).len() > 0,
{
}

/// `str::split_whitespace`, into character vectors.
pub fn split_whitespace(v: &Vec<char>) -> (r: Vec<Vec<char>>)
    ensures
        views(r@) == split_ws(v@),
{
    let mut tokens: Vec<Vec<char>> = Vec::new();
    let mut i: usize = 0;
    while i < v.len()
        invariant
            i <= v.len(),
            views(tokens@) == split_ws(v@.take(i as int)),
        decreases v.len() - i,
    {
        let ghost t = v@.take(i + 1);
        assert(t.drop_last() =~= v@.take(i as int));
        assert(t.last() == v@[i as int]);
        let c = v[i];
        if char_is_whitespace(c) {
        } else if i >= 1 && !char_is_whitespace(v[i - 1]) {
            assert(t[t.len() - 2] == v@[i - 1]);
            assert(v@.take(i as int).last() == v@[i - 1]);
            proof {
                lemma_split_nonempty(v@.take(i as int));
            }
            let mut last = tokens.pop().unwrap();
            let ghost before = views(tokens@);
            last.push(c);
            tokens.push(last);
            assert(views(tokens@) =~= split_ws(t));
        } else {
            let mut tok: Vec<char> = Vec::new();
            tok.push(c);
            assert(tok@ =~= seq![c]);
            tokens.push(tok);
            assert(views(tokens@) =~= split_ws(t));
        }
        i += 1;
    }
    assert(v@.take(v.len() as int) =~= v@);
    tokens
}

/// Tokens joined with `sep` between consecutive tokens.
pub fn join_tokens(tokens: &Vec<Vec<char>>, sep: &Vec<char>) -> (r: Vec<char>)
    ensures
        r@ == join_with(views(tokens@), sep@),
{
    let mut out: Vec<char> = Vec::new();
    let mut i: usize = 0;
    while i < tokens.len()
        invariant
            i <= tokens.len(),
            out@ == join_with(views(tokens@).take(i as int), sep@),
        decreases tokens.len() - i,
    {
        let ghost t = views(tokens@).take(i + 1);
        assert(t.drop_last() =~= views(tokens@).take(i as int));
        if i > 0 {
            append_chars(&mut out, sep);
        } else {
            assert(views(tokens@).take(i as int).len() == 0);
        }
        append_chars(&mut out, &tokens[i]);
        i += 1;
    }
    assert(views(tokens@).take(tokens.len() as int) =~= views(tokens@));
    out
}

// ---------------------------------------------------------------------------
// Years and numbers
// ---------------------------------------------------------------------------

pub open spec fn digit_value(c: char) -> nat {
    ((c as int) - ('0' as int)) as nat
}

/// The value of a run of decimal digits.
pub open spec fn digits_value(s: Seq<char>) -> nat
    decreases s.len(),
{
    if s.len() == 0 {
        0
    } else {
        digits_value(s.drop_last()) * 10 + digit_value(s.last())
    }
}

pub open spec fn all_digits(s: Seq<char>) -> bool {
    forall|i: int| 0 <= i < s.len() ==> is_ascii_digit(#[trigger] s[i])
}

/// The year a token spells: exactly four ASCII digits between 1900 and 2100.
pub open spec fn year_of_token(t: Seq<char>) -> Option<nat> {
    if t.len() == 4 && all_digits(t) && 1900 <= digits_value(t) <= 2100 {
        Some(digits_value(t))
    } else {
        None
    }
}

proof fn lemma_digits_value_bound(s: Seq<char>)
    requires
        all_digits(s),
    ensures
        s.len() <= 4 ==> digits_value(s) < 10000,
        s.len() <= 3 ==> digits_value(s) < 1000,
        s.len() <= 2 ==> digits_value(s) < 100,
        s.len() <= 1 ==> digits_value(s) < 10,
    decreases s.len(),
{
    if s.len() > 0 {
        lemma_digits_value_bound(s.drop_last());
    }
}

/// The value of a run of at most four ASCII digits.
pub fn small_digits_value(v: &Vec<char>, start: usize, end: usize) -> (r: u16)
    requires
        start <= end <= v.len(),
        end - start <= 4,
        all_digits(v@.subrange(start as int, end as int)),
    ensures
        r as nat == digits_value(v@.subrange(start as int, end as int)),
{
    let mut acc: u16 = 0;
    let mut i = start;
    while i < end
        invariant
            start <= i <= end <= v.len(),
            end - start <= 4,
            all_digits(v@.subrange(start as int, end as int)),
            acc as nat == digits_value(v@.subrange(start as int, i as int)),
        decreases end - i,
    {
        let ghost s = v@.subrange(start as int, i + 1);
        assert(s.drop_last() =~= v@.subrange(start as int, i as int));
        assert(v@.subrange(start as int, end as int)[i - start] == v@[i as int]);
        proof {
            lemma_digits_value_bound(v@.subrange(start as int, i as int));
        }
        let d = (v[i] as u32 - '0' as u32) as u16;
        acc = acc * 10 + d;
        i += 1;
    }
    acc
}

/// `parse_year_token`: the year a trimmed token spells.
pub open spec fn spec_parse_year_token(value: Seq<char>) -> Option<nat> {
    year_of_token(trim_ws(value))
}

pub fn year_of_token_chars(t: &Vec<char>) -> (r: Option<u16>)
    ensures
        match r {
            Some(y) => year_of_token(t@) == Some(y as nat),
            None => year_of_token(t@) is None,
        },
{
    if t.len() != 4 {
        return None;
    }
    let mut k: usize = 0;
    while k < 4
        invariant
            k <= 4,
            t.len() == 4,
            forall|j: int| 0 <= j < k ==> is_ascii_digit(t@[j]),
        decreases 4 - k,
    {
        if !('0' <= t[k] && t[k] <= '9') {
            return None;
        }
        k += 1;
    }
    assert(t@.subrange(0, 4) =~= t@);
    let y = small_digits_value(t, 0, 4);
    if 1900 <= y && y <= 2100 {
        Some(y)
    } else {
        None
    }
}

pub fn parse_year_token(value: &str) -> (r: Option<u16>)
    ensures
        match r {
            Some(y) => spec_parse_year_token(value@) == Some(y as nat),
            None => spec_parse_year_token(value@) is None,
        },
{
    let v = chars_of(value);
    let t = trim_chars(&v);
    year_of_token_chars(&t)
}

// ---------------------------------------------------------------------------
// Duplicate keys
// ---------------------------------------------------------------------------

/// Release-noise words ignored when grouping duplicates.
pub open spec fn is_duplicate_noise(t: Seq<char>) -> bool {
    ||| t == "2160p"@
    ||| t == "1080p"@
    ||| t == "720p"@
    ||| t == "480p"@
    ||| t == "bluray"@
    ||| t == "bdrip"@
    ||| t == "webrip"@
    ||| t == "web"@
    ||| t == "x264"@
    ||| t == "x265"@
    ||| t == "hevc"@
    ||| t == "h264"@
    ||| t == "dvdrip"@
    ||| t == "remux"@
    ||| t == "hdr"@
    ||| t == "proper"@
    ||| t == "repack"@
    ||| t == "extended"@
    ||| t == "directors"@
    ||| t == "cut"@
    ||| t == "yify"@
}

fn duplicate_noise(t: &Vec<char>) -> (r: bool)
    ensures
        r == is_duplicate_noise(t@),
{
    chars_eq_str(t, "2160p") || chars_eq_str(t, "1080p") || chars_eq_str(t, "720p")
        || chars_eq_str(t, "480p") || chars_eq_str(t, "bluray") || chars_eq_str(t, "bdrip")
        || chars_eq_str(t, "webrip") || chars_eq_str(t, "web") || chars_eq_str(t, "x264")
        || chars_eq_str(t, "x265") || chars_eq_str(t, "hevc") || chars_eq_str(t, "h264")
        || chars_eq_str(t, "dvdrip") || chars_eq_str(t, "remux") || chars_eq_str(t, "hdr")
        || chars_eq_str(t, "proper") || chars_eq_str(t, "repack") || chars_eq_str(t, "extended")
        || chars_eq_str(t, "directors") || chars_eq_str(t, "cut") || chars_eq_str(t, "yify")
}

/// The first token that spells a year.
pub open spec fn first_year(tokens: Seq<Seq<char>>) -> Option<nat>
    decreases tokens.len(),
{
    if tokens.len() == 0 {
        None
    } else {
        match year_of_token(tokens[0]) {
            Some(y) => Some(y),
            None => first_year(tokens.drop_first()),
        }
    }
}

/// The tokens that are neither release noise nor the year.
pub open spec fn title_tokens(tokens: Seq<Seq<char>>, year: Option<nat>) -> Seq<Seq<char>>
    decreases tokens.len(),
{
    if tokens.len() == 0 {
        seq![]
    } else {
        let rest = title_tokens(tokens.drop_last(), year);
        let t = tokens.last();
        if is_duplicate_noise(t) || (year matches Some(y) && t == decimal(y)) {
            rest
        } else {
            rest.push(t)
        }
    }
}

/// The title words of a duplicate key are the tokens other than the year and
/// the release noise 2160p, 1080p, 720p, 480p, bluray, bdrip, webrip, web,
/// x264, x265, hevc, h264, dvdrip, remux, hdr, proper, repack, extended,
/// directors, cut and yify, in their order.
pub proof fn lemma_title_tokens_drop_release_noise(tokens: Seq<Seq<char>>, year: Option<nat>)
    ensures
        title_tokens(tokens, year) == tokens.filter(
            |t: Seq<char>|
                !set![
                    "2160p"@,
                    "1080p"@,
                    "720p"@,
                    "480p"@,
                    "bluray"@,
                    "bdrip"@,
                    "webrip"@,
                    "web"@,
                    "x264"@,
                    "x265"@,
                    "hevc"@,
                    "h264"@,
                    "dvdrip"@,
                    "remux"@,
                    "hdr"@,
                    "proper"@,
                    "repack"@,
                    "extended"@,
                    "directors"@,
                    "cut"@,
                    "yify"@,
                ].contains(t) && !(year is Some && t == decimal(year->0)),
        ),
    decreases tokens.len(),
{
    reveal(Seq::filter);
    if tokens.len() > 0 {
        lemma_title_tokens_drop_release_noise(tokens.drop_last(), year);
    }
}

/// `normalize_duplicate_key`: "title words|year" from a file stem, with
/// release noise dropped and "none" for a missing year.
pub open spec fn spec_duplicate_key(stem: Seq<char>) -> Seq<char> {
    let normalized = ascii_lower(spec_normalize_filename_stem(stem));
    let tokens = split_ws(normalized);
    let year = first_year(tokens);
    let kept = title_tokens(tokens, year);
    let title = if kept.len() == 0 {
        join_with(tokens, seq![' '])
    } else {
        join_with(kept, seq![' '])
    };
    title + seq!['|'] + match year {
        Some(y) => decimal(y),
        None => "none"@,
    }
}

/// A duplicate key's title part is the stem's words (lower-cased, separators
/// read as spaces) without the year and the release noise, joined by single
/// spaces, whenever any word is left; so two copies that differ only in
/// such noise share a key.
pub proof fn lemma_duplicate_key_title_words(stem: Seq<char>)
    ensures
        ({
            let tokens = split_ws(ascii_lower(spec_normalize_filename_stem(stem)));
            let year = first_year(tokens);
            let kept = tokens.filter(
                |t: Seq<char>|
                    !set![
                        "2160p"@,
                        "1080p"@,
                        "720p"@,
                        "480p"@,
                        "bluray"@,
                        "bdrip"@,
                        "webrip"@,
                        "web"@,
                        "x264"@,
                        "x265"@,
                        "hevc"@,
                        "h264"@,
                        "dvdrip"@,
                        "remux"@,
                        "hdr"@,
                        "proper"@,
                        "repack"@,
                        "extended"@,
                        "directors"@,
                        "cut"@,
                        "yify"@,
                    ].contains(t) && !(year is Some && t == decimal(year->0)),
            );
            kept.len() > 0 ==> spec_duplicate_key(stem) == join_with(kept, seq![' ']) + seq!['|'] + match year {
                Some(y) => decimal(y),
                None => "none"@,
            }
        }),
{
    let tokens = split_ws(ascii_lower(spec_normalize_filename_stem(stem)));
    lemma_title_tokens_drop_release_noise(tokens, first_year(tokens));
}

proof fn lemma_first_year_take(tokens: Seq<Seq<char>>, i: int)
    requires
        0 <= i < tokens.len(),
        first_year(tokens.take(i)) is None,
    ensures
        first_year(tokens.take(i + 1)) == year_of_token(tokens[i]),
    decreases i,
{
    let t = tokens.take(i + 1);
    if i > 0 {
        let d = tokens.drop_first();
        assert(t.drop_first() =~= d.take(i));
        assert(tokens.take(i).drop_first() =~= d.take(i - 1));
        assert(tokens.take(i)[0] == tokens[0]);
        assert(t[0] == tokens[0]);
        assert(d[i - 1] == tokens[i]);
        assert(year_of_token(tokens[0]) is None);
        lemma_first_year_take(d, i - 1);
        assert(first_year(t) == first_year(t.drop_first()));
    } else {
        assert(t[0] == tokens[0]);
        assert(t.drop_first().len() == 0);
        assert(first_year(t.drop_first()) is None);
    }
}

proof fn lemma_first_year_prefix(tokens: Seq<Seq<char>>, i: int)
    requires
        0 <= i <= tokens.len(),
        first_year(tokens.take(i)) is Some,
    ensures
        first_year(tokens) == first_year(tokens.take(i)),
    decreases i,
{
    if i > 0 {
        assert(tokens.take(i)[0] == tokens[0]);
        if year_of_token(tokens[0]) is None {
            assert(tokens.take(i).drop_first() =~= tokens.drop_first().take(i - 1));
            lemma_first_year_prefix(tokens.drop_first(), i - 1);
        }
    }
}

fn year_text(y: u16) -> (r: Vec<char>)
    ensures
        r@ == decimal(y as nat),
{
    decimal_chars(y as u64)
}

pub fn normalize_duplicate_key_chars(stem: &Vec<char>) -> (r: Vec<char>)
    ensures
        r@ == spec_duplicate_key(stem@),
{
    let norm = normalize_filename_stem_chars(stem);
    let normalized = lower_chars(&norm);
    let tokens = split_whitespace(&normalized);
    let ghost toks = views(tokens@);
    let mut year: Option<u16> = None;
    let mut i: usize = 0;
    while i < tokens.len()
        invariant
            i <= tokens.len(),
            toks == views(tokens@),
            year is None ==> first_year(toks.take(i as int)) is None,
            year matches Some(y) ==> first_year(toks) == Some(y as nat),
        decreases tokens.len() - i,
    {
        if year.is_none() {
            proof {
                lemma_first_year_take(toks, i as int);
            }
            let y = year_of_token_chars(&tokens[i]);
            if let Some(v) = y {
                proof {
                    lemma_first_year_prefix(toks, i + 1);
                }
                year = Some(v);
            }
        }
        i += 1;
    }
    proof {
        if year is None {
            assert(toks.take(tokens.len() as int) =~= toks);
        }
    }
    let ghost yspec: Option<nat> = match year {
        Some(y) => Some(y as nat),
        None => None,
    };
    assert(yspec == first_year(toks));
    let year_chars: Option<Vec<char>> = match year {
        Some(y) => Some(year_text(y)),
        None => None,
    };
    let mut kept: Vec<Vec<char>> = Vec::new();
    let mut j: usize = 0;
    while j < tokens.len()
        invariant
            j <= tokens.len(),
            toks == views(tokens@),
            views(kept@) == title_tokens(toks.take(j as int), yspec),
            match year_chars {
                Some(yc) => yspec matches Some(y) && yc@ == decimal(y),
                None => yspec is None,
            },
        decreases tokens.len() - j,
    {
        assert(toks.take(j + 1).drop_last() =~= toks.take(j as int));
        let t = &tokens[j];
        let is_year = match &year_chars {
            Some(yc) => crate::text::chars_eq(t, yc),
            None => false,
        };
        if !duplicate_noise(t) && !is_year {
            kept.push(crate::text::copy_chars(t));
            assert(views(kept@) =~= title_tokens(toks.take(j + 1), yspec));
        }
        j += 1;
    }
    assert(toks.take(tokens.len() as int) =~= toks);
    let mut space: Vec<char> = Vec::new();
    space.push(' ');
    assert(space@ =~= seq![' ']);
    let mut out = if kept.len() == 0 {
        join_tokens(&tokens, &space)
    } else {
        join_tokens(&kept, &space)
    };
    out.push('|');
    match year_chars {
        Some(yc) => append_chars(&mut out, &yc),
        None => crate::text::append_str(&mut out, "none"),
    }
    out
}

/// `normalize_duplicate_key`: "The.Movie.2021.1080p.BluRay.x264" keys as "the movie|2021".
pub fn normalize_duplicate_key(stem: &str) -> (r: String)
    ensures
        r@ == spec_duplicate_key(stem@),
{
    let v = chars_of(stem);
    let k = normalize_duplicate_key_chars(&v);
    string_from_chars(&k)
}

// ---------------------------------------------------------------------------
// Episode signatures
// ---------------------------------------------------------------------------

/// Number of ASCII digits at `start` in `s`, counting at most `cap`.
pub open spec fn lead_digits(s: Seq<char>, start: int, cap: nat) -> nat
    decreases cap,
{
    if cap == 0 || start < 0 || start >= s.len() || !is_ascii_digit(s[start]) {
        0
    } else {
        1 + lead_digits(s, start + 1, (cap - 1) as nat)
    }
}

proof fn lemma_lead_digits(s: Seq<char>, start: int, cap: nat)
    requires
        0 <= start,
    ensures
        lead_digits(s, start, cap) <= cap,
        lead_digits(s, start, cap) > 0 ==> start + lead_digits(s, start, cap) <= s.len(),
        all_digits(s.subrange(start, start + lead_digits(s, start, cap))) || lead_digits(
            s,
            start,
            cap,
        ) == 0,
    decreases cap,
{
    if !(cap == 0 || start >= s.len() || !is_ascii_digit(s[start])) {
        lemma_lead_digits(s, start + 1, (cap - 1) as nat);
        let n = lead_digits(s, start, cap);
        let m = lead_digits(s, start + 1, (cap - 1) as nat);
        assert forall|k: int| 0 <= k < n implies is_ascii_digit(
            #[trigger] s.subrange(start, start + n)[k],
        ) by {
            if k > 0 {
                assert(s.subrange(start, start + n)[k] == s.subrange(start + 1, start + 1 + m)[k
                    - 1]);
            }
        }
    }
}

fn count_lead_digits(s: &Vec<char>, start: usize, cap: usize) -> (r: usize)
    ensures
        r as nat == lead_digits(s@, start as int, cap as nat),
        r <= cap,
    decreases cap,
{
    proof {
        lemma_lead_digits(s@, start as int, cap as nat);
    }
    if cap == 0 || start >= s.len() || !('0' <= s[start] && s[start] <= '9') {
        0
    } else {
        1 + count_lead_digits(s, start + 1, cap - 1)
    }
}

/// Season and episode numbers of an "S<season>E<episode>" marker at `i`:
/// one to four season digits, one to three episode digits.
pub open spec fn episode_at(u: Seq<char>, i: int) -> Option<(nat, nat)> {
    if !(0 <= i < u.len() && u[i] == 'S') {
        None
    } else {
        let sl = lead_digits(u, i + 1, 4);
        let e = i + 1 + sl;
        if sl == 0 || e >= u.len() || u[e] != 'E' {
            None
        } else {
            let el = lead_digits(u, e + 1, 3);
            if el == 0 {
                None
            } else {
                Some(
                    (
                        digits_value(u.subrange(i + 1, e)),
                        digits_value(u.subrange(e + 1, e + 1 + el)),
                    ),
                )
            }
        }
    }
}

/// The first marker at or after `i`.
pub open spec fn first_episode(u: Seq<char>, i: int) -> Option<(nat, nat)>
    decreases u.len() - i,
{
    if i < 0 || i >= u.len() {
        None
    } else {
        match episode_at(u, i) {
            Some(p) => Some(p),
            None => first_episode(u, i + 1),
        }
    }
}

/// `extract_episode_signature_from_media_path`: "S<season:04>E<episode:03>"
/// from the first marker in the upper-cased file name.
pub open spec fn spec_episode_signature(media_path: Seq<char>) -> Option<Seq<char>> {
    let name = match path_file_name(media_path) {
        Some(n) => n,
        None => media_path,
    };
    match first_episode(ascii_upper(name), 0) {
        Some((season, episode)) => Some(
            seq!['S'] + decimal_padded(season, 4) + seq!['E'] + decimal_padded(episode, 3),
        ),
        None => None,
    }
}

pub fn extract_episode_signature_from_media_path(media_path: &str) -> (r: Option<String>)
    ensures
        match r {
            Some(s) => spec_episode_signature(media_path@) == Some(s@),
            None => spec_episode_signature(media_path@) is None,
        },
{
    let p = chars_of(media_path);
    let name = match file_name_of(&p) {
        Some(n) => n,
        None => p,
    };
    let ghost spec_name = match path_file_name(media_path@) {
        Some(n) => n,
        None => media_path@,
    };
    assert(name@ == spec_name);
    let u = upper_chars(&name);
    let mut i: usize = 0;
    while i < u.len()
        invariant
            i <= u.len(),
            u@ == ascii_upper(spec_name),
            spec_name == match path_file_name(media_path@) {
                Some(n) => n,
                None => media_path@,
            },
            first_episode(u@, 0) == first_episode(u@, i as int),
        decreases u.len() - i,
    {
        if u[i] == 'S' {
            let sl = count_lead_digits(&u, i + 1, 4);
            proof {
                lemma_lead_digits(u@, i + 1, 4);
            }
            let e = i + 1 + sl;
            if sl > 0 && e < u.len() && u[e] == 'E' {
                let el = count_lead_digits(&u, e + 1, 3);
                proof {
                    lemma_lead_digits(u@, e + 1, 3);
                }
                if el > 0 {
                    let season = small_digits_value(&u, i + 1, e);
                    let episode = small_digits_value(&u, e + 1, e + 1 + el);
                    assert(episode_at(u@, i as int) == Some((season as nat, episode as nat)));
                    assert(first_episode(u@, i as int) == Some((season as nat, episode as nat)));
                    let mut out: Vec<char> = Vec::new();
                    out.push('S');
                    let sd = decimal_padded_chars(season as u64, 4);
                    append_chars(&mut out, &sd);
                    out.push('E');
                    let ed = decimal_padded_chars(episode as u64, 3);
                    append_chars(&mut out, &ed);
                    assert(out@ =~= seq!['S'] + decimal_padded(season as nat, 4) + seq!['E']
                        + decimal_padded(episode as nat, 3));
                    return Some(string_from_chars(&out));
                }
            }
        }
        i += 1;
    }
    None
}

} // verus!
