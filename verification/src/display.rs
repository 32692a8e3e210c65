use vstd::prelude::*;

use crate::naming::collapse_ws;
use crate::text::{
    append_chars, char_is_whitespace, chars_of, is_ws, join_with, string_from_chars, trim_chars,
    trim_ws, views,
};

verus! {

// ---------------------------------------------------------------------------
// Display-safe file-name components
// ---------------------------------------------------------------------------

/// Characters that cannot stand in a file name on common file systems.
pub open spec fn is_invalid_name_char(c: char) -> bool {
    c == '/' || c == '\\' || c == ':' || c == '*' || c == '?' || c == '"' || c == '<' || c == '>'
        || c == '|'
}

pub open spec fn invalid_to_dash(c: char) -> char {
    if is_invalid_name_char(c) {
        '-'
    } else {
        c
    }
}

/// Runs of white space become one space and runs of dashes one dash.
pub open spec fn collapse_space_dash(s: Seq<char>) -> Seq<char>
    decreases s.len(),
{
    if s.len() == 0 {
        seq![]
    } else {
        let p = collapse_space_dash(s.drop_last());
        let c = s.last();
        if is_ws(c) {
            if p.len() > 0 && p.last() == ' ' {
                p
            } else {
                p.push(' ')
            }
        } else if c == '-' {
            if p.len() > 0 && p.last() == '-' {
                p
            } else {
                p.push('-')
            }
        } else {
            p.push(c)
        }
    }
}

pub open spec fn is_ws_or_dash(c: char) -> bool {
    is_ws(c) || c == '-'
}

pub open spec fn trim_start_wsd(s: Seq<char>) -> Seq<char>
    decreases s.len(),
{
    if s.len() > 0 && is_ws_or_dash(s[0]) {
        trim_start_wsd(s.drop_first())
    } else {
        s
    }
}

pub open spec fn trim_end_wsd(s: Seq<char>) -> Seq<char>
    decreases s.len(),
{
    if s.len() > 0 && is_ws_or_dash(s.last()) {
        trim_end_wsd(s.drop_last())
    } else {
        s
    }
}

/// `sanitize_display_filename_component`: invalid characters become dashes,
/// runs of spaces and of dashes collapse, and spaces and dashes are trimmed
/// from both ends.
pub open spec fn spec_sanitize_component(s: Seq<char>) -> Seq<char> {
    trim_end_wsd(trim_start_wsd(collapse_space_dash(s.map_values(|c: char| invalid_to_dash(c)))))
}

proof fn lemma_trim_start_wsd_skip(s: Seq<char>, k: int)
    requires
        0 <= k <= s.len(),
        forall|j: int| 0 <= j < k ==> is_ws_or_dash(s[j]),
    ensures
        trim_start_wsd(s) == trim_start_wsd(s.subrange(k, s.len() as int)),
    decreases k,
{
    if k > 0 {
        assert(s.drop_first() =~= s.subrange(1, s.len() as int));
        lemma_trim_start_wsd_skip(s.drop_first(), k - 1);
        assert(s.drop_first().subrange(k - 1, s.drop_first().len() as int) =~= s.subrange(
            k,
            s.len() as int,
        ));
    } else {
        assert(s.subrange(0, s.len() as int) =~= s);
    }
}

proof fn lemma_trim_end_wsd_take(s: Seq<char>, k: int)
    requires
        0 <= k <= s.len(),
        forall|j: int| k <= j < s.len() ==> is_ws_or_dash(s[j]),
    ensures
        trim_end_wsd(s) == trim_end_wsd(s.subrange(0, k)),
    decreases s.len() - k,
{
    if k < s.len() {
        assert(s.drop_last() =~= s.subrange(0, s.len() - 1));
        lemma_trim_end_wsd_take(s.drop_last(), k);
        assert(s.drop_last().subrange(0, k) =~= s.subrange(0, k));
    } else {
        assert(s.subrange(0, k) =~= s);
    }
}

/// No white space but single spaces, and no two dashes in a row.
pub open spec fn collapsed(r: Seq<char>) -> bool {
    &&& forall|i: int| 0 <= i < r.len() ==> (is_ws(#[trigger] r[i]) ==> r[i] == ' ')
    &&& forall|i: int| 0 <= i < r.len() - 1 ==> !(#[trigger] r[i] == ' ' && r[i + 1] == ' ')
    &&& forall|i: int| 0 <= i < r.len() - 1 ==> !(#[trigger] r[i] == '-' && r[i + 1] == '-')
}

/// What a sanitised component looks like: no character that file systems
/// refuse, single spaces and single dashes, and no space or dash at its ends.
pub open spec fn is_clean_component(r: Seq<char>) -> bool {
    &&& forall|i: int| 0 <= i < r.len() ==> !is_invalid_name_char(#[trigger] r[i])
    &&& collapsed(r)
    &&& r.len() > 0 ==> !is_ws_or_dash(r[0]) && !is_ws_or_dash(r.last())
}

proof fn lemma_collapse_space_dash_shape(x: Seq<char>)
    requires
        forall|i: int| 0 <= i < x.len() ==> !is_invalid_name_char(#[trigger] x[i]),
    ensures
        collapsed(collapse_space_dash(x)),
        forall|i: int|
            0 <= i < collapse_space_dash(x).len() ==> !is_invalid_name_char(#[trigger] collapse_space_dash(x)[i]),
    decreases x.len(),
{
    if x.len() > 0 {
        let y = x.drop_last();
        assert forall|i: int| 0 <= i < y.len() implies !is_invalid_name_char(#[trigger] y[i]) by {
            assert(y[i] == x[i]);
        }
        lemma_collapse_space_dash_shape(y);
        assert(!is_invalid_name_char(x[x.len() - 1]));
    }
}

proof fn lemma_collapse_space_dash_identity(r: Seq<char>)
    requires
        collapsed(r),
    ensures
        collapse_space_dash(r) == r,
    decreases r.len(),
{
    if r.len() > 0 {
        let p = r.drop_last();
        assert(collapsed(p)) by {
            assert forall|i: int| 0 <= i < p.len() implies (is_ws(#[trigger] p[i]) ==> p[i] == ' ') by {
                assert(p[i] == r[i]);
            }
            assert forall|i: int| 0 <= i < p.len() - 1 implies !(#[trigger] p[i] == ' ' && p[i + 1] == ' ') by {
                assert(p[i] == r[i] && p[i + 1] == r[i + 1]);
            }
            assert forall|i: int| 0 <= i < p.len() - 1 implies !(#[trigger] p[i] == '-' && p[i + 1] == '-') by {
                assert(p[i] == r[i] && p[i + 1] == r[i + 1]);
            }
        }
        lemma_collapse_space_dash_identity(p);
        if p.len() > 0 {
            assert(p.last() == r[r.len() - 2]);
        }
        assert(p.push(r.last()) =~= r);
    }
}

proof fn lemma_trim_start_wsd_shape(s: Seq<char>)
    ensures
        trim_start_wsd(s).len() <= s.len(),
        trim_start_wsd(s) == s.subrange(s.len() - trim_start_wsd(s).len(), s.len() as int),
        trim_start_wsd(s).len() > 0 ==> !is_ws_or_dash(trim_start_wsd(s)[0]),
    decreases s.len(),
{
    if s.len() > 0 && is_ws_or_dash(s[0]) {
        lemma_trim_start_wsd_shape(s.drop_first());
        assert(trim_start_wsd(s) =~= s.subrange(s.len() - trim_start_wsd(s).len(), s.len() as int));
    } else {
        assert(s.subrange(0, s.len() as int) =~= s);
    }
}

proof fn lemma_trim_end_wsd_shape(s: Seq<char>)
    ensures
        trim_end_wsd(s).len() <= s.len(),
        trim_end_wsd(s) == s.subrange(0, trim_end_wsd(s).len() as int),
        trim_end_wsd(s).len() > 0 ==> !is_ws_or_dash(trim_end_wsd(s).last()),
    decreases s.len(),
{
    if s.len() > 0 && is_ws_or_dash(s.last()) {
        lemma_trim_end_wsd_shape(s.drop_last());
        assert(trim_end_wsd(s) =~= s.subrange(0, trim_end_wsd(s).len() as int));
    } else {
        assert(s.subrange(0, s.len() as int) =~= s);
    }
}

/// A sanitised component holds none of `/ \ : * ? " < > |`, no white space
/// but single spaces, no two dashes in a row, and no space or dash at its
/// ends; sanitising it again changes nothing.
pub proof fn lemma_sanitized_component_shape(s: Seq<char>)
    ensures
        is_clean_component(spec_sanitize_component(s)),
        spec_sanitize_component(spec_sanitize_component(s)) == spec_sanitize_component(s),
{
    let m = s.map_values(|c: char| invalid_to_dash(c));
    assert forall|i: int| 0 <= i < m.len() implies !is_invalid_name_char(#[trigger] m[i]) by {
        assert(m[i] == invalid_to_dash(s[i]));
    }
    let x = collapse_space_dash(m);
    lemma_collapse_space_dash_shape(m);
    let u = trim_start_wsd(x);
    lemma_trim_start_wsd_shape(x);
    let r = trim_end_wsd(u);
    lemma_trim_end_wsd_shape(u);
    let a = x.len() - u.len();
    assert forall|i: int| 0 <= i < r.len() implies r[i] == #[trigger] x[a + i] by {
        assert(r[i] == u[i]);
    }
    assert forall|i: int| 0 <= i < r.len() implies !is_invalid_name_char(#[trigger] r[i]) by {
        assert(r[i] == x[a + i]);
    }
    assert forall|i: int| 0 <= i < r.len() implies (is_ws(#[trigger] r[i]) ==> r[i] == ' ') by {
        assert(r[i] == x[a + i]);
    }
    assert forall|i: int| 0 <= i < r.len() - 1 implies !(#[trigger] r[i] == ' ' && r[i + 1] == ' ') by {
        assert(r[i] == x[a + i] && r[i + 1] == x[a + i + 1]);
    }
    assert forall|i: int| 0 <= i < r.len() - 1 implies !(#[trigger] r[i] == '-' && r[i + 1] == '-') by {
        assert(r[i] == x[a + i] && r[i + 1] == x[a + i + 1]);
    }
    if r.len() > 0 {
        assert(r[0] == u[0]);
    }
    assert(is_clean_component(r));
    let m2 = r.map_values(|c: char| invalid_to_dash(c));
    assert(m2 =~= r);
    lemma_collapse_space_dash_identity(r);
    if r.len() > 0 {
        assert(trim_start_wsd(r) == r);
        assert(trim_end_wsd(r) == r);
    } else {
        assert(trim_start_wsd(r) =~= r);
        assert(trim_end_wsd(r) =~= r);
    }
}

/// Trims white space and dashes from both ends.
pub fn trim_ws_dash_chars(v: &Vec<char>) -> (r: Vec<char>)
    ensures
        r@ == trim_end_wsd(trim_start_wsd(v@)),
{
    let mut start: usize = 0;
    while start < v.len() && (char_is_whitespace(v[start]) || v[start] == '-')
        invariant
            start <= v.len(),
            forall|j: int| 0 <= j < start ==> is_ws_or_dash(v@[j]),
        decreases v.len() - start,
    {
        start += 1;
    }
    proof {
        lemma_trim_start_wsd_skip(v@, start as int);
    }
    let ghost rest = v@.subrange(start as int, v.len() as int);
    assert(trim_start_wsd(rest) == rest);
    let mut end: usize = v.len();
    while end > start && (char_is_whitespace(v[end - 1]) || v[end - 1] == '-')
        invariant
            start <= end <= v.len(),
            forall|j: int| end <= j < v.len() ==> is_ws_or_dash(v@[j]),
        decreases end,
    {
        end -= 1;
    }
    proof {
        lemma_trim_end_wsd_take(rest, end - start);
        assert(rest.subrange(0, end - start) =~= v@.subrange(start as int, end as int));
    }
    crate::text::slice_chars(v, start, end)
}

pub fn sanitize_component_chars(value: &Vec<char>) -> (r: Vec<char>)
    ensures
        r@ == spec_sanitize_component(value@),
{
    let ghost m = value@.map_values(|c: char| invalid_to_dash(c));
    let mut out: Vec<char> = Vec::new();
    let mut prev_space = false;
    let mut prev_dash = false;
    let mut i: usize = 0;
    while i < value.len()
        invariant
            i <= value.len(),
            m == value@.map_values(|c: char| invalid_to_dash(c)),
            out@ == collapse_space_dash(m.take(i as int)),
            prev_space == (out@.len() > 0 && out@.last() == ' '),
            prev_dash == (out@.len() > 0 && out@.last() == '-'),
        decreases value.len() - i,
    {
        let ch = value[i];
        let mapped = if ch == '/' || ch == '\\' || ch == ':' || ch == '*' || ch == '?' || ch == '"'
            || ch == '<' || ch == '>' || ch == '|' {
            '-'
        } else {
            ch
        };
        assert(m.take(i + 1).drop_last() =~= m.take(i as int));
        assert(m.take(i + 1).last() == mapped);
        if char_is_whitespace(mapped) {
            if !prev_space {
                out.push(' ');
            }
            prev_space = true;
            prev_dash = false;
        } else if mapped == '-' {
            if !prev_dash {
                out.push('-');
            }
            prev_space = false;
            prev_dash = true;
        } else {
            out.push(mapped);
            prev_space = false;
            prev_dash = false;
        }
        i += 1;
    }
    assert(m.take(value.len() as int) =~= m);
    trim_ws_dash_chars(&out)
}

/// `sanitize_display_filename_component`: "Movie: Part/Two" reads "Movie- Part-Two".
pub fn sanitize_display_filename_component(value: &str) -> (r: String)
    ensures
        r@ == spec_sanitize_component(value@),
{
    let v = chars_of(value);
    let s = sanitize_component_chars(&v);
    string_from_chars(&s)
}

// ---------------------------------------------------------------------------
// Display titles
// ---------------------------------------------------------------------------

/// `.` and `_` read as spaces, and `:` as a spaced dash.
pub open spec fn expand_title_char(c: char) -> Seq<char> {
    if c == '.' || c == '_' {
        seq![' ']
    } else if c == ':' {
        seq![' ', '-', ' ']
    } else {
        seq![c]
    }
}

pub open spec fn expand_title(s: Seq<char>) -> Seq<char>
    decreases s.len(),
{
    if s.len() == 0 {
        seq![]
    } else {
        expand_title(s.drop_last()) + expand_title_char(s.last())
    }
}

/// Scanning from the left, each " - " is kept and every other dash becomes a
/// space.
pub open spec fn keep_spaced_dashes(s: Seq<char>) -> Seq<char>
    decreases s.len(),
{
    if s.len() == 0 {
        seq![]
    } else if s.len() >= 3 && s[0] == ' ' && s[1] == '-' && s[2] == ' ' {
        seq![' ', '-', ' '] + keep_spaced_dashes(s.skip(3))
    } else if s[0] == '-' {
        seq![' '] + keep_spaced_dashes(s.skip(1))
    } else {
        seq![s[0]] + keep_spaced_dashes(s.skip(1))
    }
}

/// `str::split('-')`: the pieces between dashes, empty ones included.
pub open spec fn dash_pieces(s: Seq<char>) -> Seq<Seq<char>>
    decreases s.len(),
{
    if s.len() == 0 {
        seq![seq![]]
    } else {
        let p = dash_pieces(s.drop_last());
        if s.last() == '-' {
            p.push(seq![])
        } else {
            p.update(p.len() - 1, p.last().push(s.last()))
        }
    }
}

/// The pieces trimmed, empty ones dropped.
pub open spec fn nonempty_trimmed(pieces: Seq<Seq<char>>) -> Seq<Seq<char>>
    decreases pieces.len(),
{
    if pieces.len() == 0 {
        seq![]
    } else {
        let r = nonempty_trimmed(pieces.drop_last());
        let t = trim_ws(pieces.last());
        if t.len() == 0 {
            r
        } else {
            r.push(t)
        }
    }
}

/// `normalize_title_for_display_name`: separators read as spaces, subtitle
/// dashes normalised to a single " - ", white space collapsed.
pub open spec fn spec_display_title(s: Seq<char>) -> Seq<char> {
    let compact = trim_ws(collapse_ws(keep_spaced_dashes(expand_title(s))));
    join_with(nonempty_trimmed(dash_pieces(compact)), seq![' ', '-', ' '])
}

proof fn lemma_dash_pieces_nonempty(s: Seq<char>)
    ensures
        dash_pieces(s).len() >= 1,
    decreases s.len(),
{
    if s.len() > 0 {
        lemma_dash_pieces_nonempty(s.drop_last());
    }
}

fn expand_title_chars(v: &Vec<char>) -> (r: Vec<char>)
    ensures
        r@ == expand_title(v@),
{
    let mut out: Vec<char> = Vec::new();
    let mut i: usize = 0;
    while i < v.len()
        invariant
            i <= v.len(),
            out@ == expand_title(v@.take(i as int)),
        decreases v.len() - i,
    {
        assert(v@.take(i + 1).drop_last() =~= v@.take(i as int));
        assert(v@.take(i + 1).last() == v@[i as int]);
        let c = v[i];
        if c == '.' || c == '_' {
            out.push(' ');
            assert(out@ =~= expand_title(v@.take(i + 1)));
        } else if c == ':' {
            out.push(' ');
            out.push('-');
            out.push(' ');
            assert(out@ =~= expand_title(v@.take(i + 1)));
        } else {
            out.push(c);
            assert(out@ =~= expand_title(v@.take(i + 1)));
        }
        i += 1;
    }
    assert(v@.take(v.len() as int) =~= v@);
    out
}

fn keep_spaced_dashes_chars(v: &Vec<char>) -> (r: Vec<char>)
    ensures
        r@ == keep_spaced_dashes(v@),
{
    let mut out: Vec<char> = Vec::new();
    let mut i: usize = 0;
    assert(v@.skip(0) =~= v@);
    while i < v.len()
        invariant
            i <= v.len(),
            out@ + keep_spaced_dashes(v@.skip(i as int)) == keep_spaced_dashes(v@),
        decreases v.len() - i,
    {
        let ghost rest = v@.skip(i as int);
        assert(rest[0] == v@[i as int]);
        if v.len() - i > 2 && v[i] == ' ' && v[i + 1] == '-' && v[i + 2] == ' ' {
            assert(rest[1] == v@[i + 1] && rest[2] == v@[i + 2]);
            assert(rest.skip(3) =~= v@.skip(i + 3));
            out.push(' ');
            out.push('-');
            out.push(' ');
            assert(out@ + keep_spaced_dashes(v@.skip(i + 3)) =~= keep_spaced_dashes(v@));
            i += 3;
        } else {
            assert(rest.skip(1) =~= v@.skip(i + 1));
            if v[i] == '-' {
                out.push(' ');
            } else {
                out.push(v[i]);
            }
            assert(out@ + keep_spaced_dashes(v@.skip(i + 1)) =~= keep_spaced_dashes(v@));
            i += 1;
        }
    }
    assert(v@.skip(i as int) =~= Seq::<char>::empty());
    assert(out@ + keep_spaced_dashes(v@.skip(i as int)) =~= out@);
    out
}

/// Runs of white space collapsed to one space, then trimmed.
pub fn collapse_trim_chars(v: &Vec<char>) -> (r: Vec<char>)
    ensures
        r@ == trim_ws(collapse_ws(v@)),
{
    let mut out: Vec<char> = Vec::new();
    let mut prev_space = false;
    let mut i: usize = 0;
    while i < v.len()
        invariant
            i <= v.len(),
            out@ == collapse_ws(v@.take(i as int)),
            prev_space == (out@.len() > 0 && out@.last() == ' '),
        decreases v.len() - i,
    {
        assert(v@.take(i + 1).drop_last() =~= v@.take(i as int));
        assert(v@.take(i + 1).last() == v@[i as int]);
        let ch = v[i];
        if char_is_whitespace(ch) {
            if !prev_space {
                out.push(' ');
            }
            prev_space = true;
        } else {
            out.push(ch);
            prev_space = false;
        }
        i += 1;
    }
    assert(v@.take(v.len() as int) =~= v@);
    trim_chars(&out)
}

fn dash_parts_chars(v: &Vec<char>) -> (r: Vec<Vec<char>>)
    ensures
        views(r@) == nonempty_trimmed(dash_pieces(v@)),
{
    let mut parts: Vec<Vec<char>> = Vec::new();
    let mut cur: Vec<char> = Vec::new();
    let mut i: usize = 0;
    proof {
        lemma_dash_pieces_nonempty(v@.take(0));
        assert(v@.take(0) =~= Seq::<char>::empty());
        assert(dash_pieces(v@.take(0)).drop_last() =~= Seq::<Seq<char>>::empty());
    }
    while i < v.len()
        invariant
            i <= v.len(),
            dash_pieces(v@.take(i as int)).len() >= 1,
            views(parts@) == nonempty_trimmed(dash_pieces(v@.take(i as int)).drop_last()),
            cur@ == dash_pieces(v@.take(i as int)).last(),
        decreases v.len() - i,
    {
        let ghost p = dash_pieces(v@.take(i as int));
        let ghost q = dash_pieces(v@.take(i + 1));
        assert(v@.take(i + 1).drop_last() =~= v@.take(i as int));
        assert(v@.take(i + 1).last() == v@[i as int]);
        if v[i] == '-' {
            assert(q == p.push(seq![]));
            assert(q.drop_last() =~= p);
            assert(p.drop_last() =~= p.take(p.len() - 1));
            let t = trim_chars(&cur);
            if t.len() > 0 {
                parts.push(t);
                assert(views(parts@) =~= nonempty_trimmed(p.drop_last()).push(t@));
            } else {
                assert(views(parts@) =~= nonempty_trimmed(p.drop_last()));
            }
            assert(views(parts@) == nonempty_trimmed(q.drop_last()));
            cur = Vec::new();
            assert(cur@ =~= q.last());
        } else {
            assert(q == p.update(p.len() - 1, p.last().push(v@[i as int])));
            assert(q.drop_last() =~= p.drop_last());
            cur.push(v[i]);
        }
        i += 1;
    }
    assert(v@.take(v.len() as int) =~= v@);
    let ghost p = dash_pieces(v@);
    let t = trim_chars(&cur);
    if t.len() > 0 {
        parts.push(t);
        assert(views(parts@) =~= nonempty_trimmed(p.drop_last()).push(t@));
    } else {
        assert(views(parts@) =~= nonempty_trimmed(p.drop_last()));
    }
    parts
}

pub fn display_title_chars(value: &Vec<char>) -> (r: Vec<char>)
    ensures
        r@ == spec_display_title(value@),
{
    let expanded = expand_title_chars(value);
    let kept = keep_spaced_dashes_chars(&expanded);
    let compact = collapse_trim_chars(&kept);
    let parts = dash_parts_chars(&compact);
    let mut sep: Vec<char> = Vec::new();
    sep.push(' ');
    sep.push('-');
    sep.push(' ');
    assert(sep@ =~= seq![' ', '-', ' ']);
    crate::naming::join_tokens(&parts, &sep)
}

/// `normalize_title_for_display_name`: "Movie.Name: Part-Two" reads
/// "Movie Name - Part Two".
pub fn normalize_title_for_display_name(value: &str) -> (r: String)
    ensures
        r@ == spec_display_title(value@),
{
    let v = chars_of(value);
    let t = display_title_chars(&v);
    string_from_chars(&t)
}

} // verus!
