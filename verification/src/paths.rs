use vstd::prelude::*;

use crate::text::{append_chars, chars_eq, copy_chars, has_prefix, slice_chars, starts_with_chars};

verus! {

// Paths are '/'-separated text, as on the Unix hosts this service runs on.
// The functions here follow `std::path::Path` on such text: a leading `/` is
// the root, a leading `.` component of a relative path is the current
// directory, and empty and `.` components elsewhere are skipped.

/// Where the components after the root or the leading `.` begin
/// (`Components::len_before_body`).
pub open spec fn body_start(s: Seq<char>) -> int {
    if s.len() > 0 && s[0] == '/' {
        1
    } else if s.len() > 0 && s[0] == '.' && (s.len() == 1 || s[1] == '/') {
        1
    } else {
        0
    }
}

/// The last character closes a component that `Path` skips: a separator, or
/// a `.` that forms a whole component inside the body.
pub open spec fn ends_in_skipped(s: Seq<char>) -> bool {
    &&& s.len() > body_start(s)
    &&& (s.last() == '/' || (s.last() == '.' && (s.len() - 1 == body_start(s) || s[s.len() - 2] == '/')))
}

/// The path without trailing separators and `.` components
/// (`Components::trim_right`).
pub open spec fn trim_tail(s: Seq<char>) -> Seq<char>
    decreases s.len(),
{
    if ends_in_skipped(s) {
        trim_tail(s.drop_last())
    } else {
        s
    }
}

/// Index of the last `c` in `s`, or -1.
pub open spec fn last_index_of(s: Seq<char>, c: char) -> int
    decreases s.len(),
{
    if s.len() == 0 {
        -1
    } else if s.last() == c {
        s.len() - 1
    } else {
        last_index_of(s.drop_last(), c)
    }
}

/// `Path::parent`: the path before its last component, trimmed; the empty
/// path for a lone `.`; none for the root or the empty path.
pub open spec fn path_parent(p: Seq<char>) -> Option<Seq<char>> {
    let t = trim_tail(p);
    let b = body_start(t);
    if t.len() > b {
        let k = last_index_of(t, '/');
        if k >= b {
            Some(trim_tail(t.subrange(0, k)))
        } else {
            Some(t.subrange(0, b))
        }
    } else if t.len() == 1 && t[0] == '.' {
        Some(seq![])
    } else {
        None
    }
}

/// `Path::file_name`: the last component, when it is a name (not `..`).
pub open spec fn path_file_name(p: Seq<char>) -> Option<Seq<char>> {
    let t = trim_tail(p);
    if t.len() > body_start(t) {
        let name = t.subrange(last_index_of(t, '/') + 1, t.len() as int);
        if name == seq!['.', '.'] {
            None
        } else {
            Some(name)
        }
    } else {
        None
    }
}

/// The part of a file name before its extension (`Path::file_stem` on a name).
pub open spec fn name_stem(name: Seq<char>) -> Seq<char> {
    let k = last_index_of(name, '.');
    if name == seq!['.', '.'] || k <= 0 {
        name
    } else {
        name.subrange(0, k)
    }
}

/// The extension of a file name (`Path::extension` on a name).
pub open spec fn name_extension(name: Seq<char>) -> Option<Seq<char>> {
    let k = last_index_of(name, '.');
    if name == seq!['.', '.'] || k <= 0 {
        None
    } else {
        Some(name.subrange(k + 1, name.len() as int))
    }
}

/// `Path::file_stem`.
pub open spec fn path_file_stem(p: Seq<char>) -> Option<Seq<char>> {
    match path_file_name(p) {
        Some(n) => Some(name_stem(n)),
        None => None,
    }
}

/// `Path::extension`.
pub open spec fn path_extension(p: Seq<char>) -> Option<Seq<char>> {
    match path_file_name(p) {
        Some(n) => name_extension(n),
        None => None,
    }
}

/// `Path::join`: an absolute name (one that starts with `/`) replaces the
/// base; a relative one is appended, with a separator unless the base is
/// empty or already ends in one.
pub open spec fn path_join(base: Seq<char>, name: Seq<char>) -> Seq<char> {
    if name.len() > 0 && name[0] == '/' {
        name
    } else if base.len() == 0 {
        name
    } else if base.last() == '/' {
        base + name
    } else {
        base + seq!['/'] + name
    }
}

/// `Path::starts_with` on canonical paths: `root` is `path` or an ancestor of it.
pub open spec fn path_has_root(path: Seq<char>, root: Seq<char>) -> bool {
    ||| path == root
    ||| (has_prefix(path, root) && root.len() > 0 && root.last() == '/')
    ||| (has_prefix(path, root) && path.len() > root.len() && path[root.len() as int] == '/')
}

pub proof fn lemma_last_index(s: Seq<char>, c: char)
    ensures
        -1 <= last_index_of(s, c) < s.len(),
        last_index_of(s, c) >= 0 ==> s[last_index_of(s, c)] == c,
        forall|j: int| last_index_of(s, c) < j < s.len() ==> s[j] != c,
    decreases s.len(),
{
    if s.len() > 0 && s.last() != c {
        lemma_last_index(s.drop_last(), c);
        let k = last_index_of(s, c);
        assert forall|j: int| k < j < s.len() implies s[j] != c by {
            if j < s.len() - 1 {
                assert(s.drop_last()[j] == s[j]);
            }
        }
        if k >= 0 {
            assert(s.drop_last()[k] == s[k]);
        }
    }
}

/// A plain file name `a.e` (neither part empty, neither holding a `.` or a
/// separator) has stem `a` and extension `e`.
pub proof fn lemma_plain_file_name(a: Seq<char>, e: Seq<char>)
    requires
        a.len() > 0,
        e.len() > 0,
        forall|i: int| 0 <= i < a.len() ==> a[i] != '.' && a[i] != '/',
        forall|i: int| 0 <= i < e.len() ==> e[i] != '.' && e[i] != '/',
    ensures
        path_file_name(a + seq!['.'] + e) == Some(a + seq!['.'] + e),
        path_file_stem(a + seq!['.'] + e) == Some(a),
        path_extension(a + seq!['.'] + e) == Some(e),
{
    let n = a + seq!['.'] + e;
    assert(n[0] == a[0]);
    assert(n.last() == e[e.len() - 1]);
    assert(body_start(n) == 0);
    assert(!ends_in_skipped(n));
    assert(trim_tail(n) == n);
    assert forall|i: int| 0 <= i < n.len() implies n[i] != '/' by {
        if i < a.len() {
            assert(n[i] == a[i]);
        } else if i > a.len() {
            assert(n[i] == e[i - a.len() - 1]);
        }
    }
    lemma_last_index(n, '/');
    assert(last_index_of(n, '/') == -1);
    assert(n.subrange(0, n.len() as int) =~= n);
    assert(n != seq!['.', '.']) by {
        assert(n.len() >= 3);
    }
    assert(path_file_name(n) == Some(n));
    lemma_last_index(n, '.');
    let k = last_index_of(n, '.');
    assert(n[a.len() as int] == '.');
    assert(k == a.len()) by {
        if k < a.len() {
            assert(n[a.len() as int] != '.');
        } else if k > a.len() {
            assert(n[k] == e[k - a.len() - 1]);
        }
    }
    assert(n.subrange(0, k) =~= a);
    assert(n.subrange(k + 1, n.len() as int) =~= e);
}

/// `body_start` of the first `n` characters of `s`.
fn body_start_of(s: &Vec<char>, n: usize) -> (r: usize)
    requires
        n <= s.len(),
    ensures
        r as int == body_start(s@.subrange(0, n as int)),
        r <= 1,
{
    if n > 0 && s[0] == '/' {
        1
    } else if n > 0 && s[0] == '.' && (n == 1 || s[1] == '/') {
        1
    } else {
        0
    }
}

/// `ends_in_skipped` of the first `n` characters of `s`.
fn ends_in_skipped_at(s: &Vec<char>, n: usize) -> (r: bool)
    requires
        n <= s.len(),
    ensures
        r == ends_in_skipped(s@.subrange(0, n as int)),
{
    let b = body_start_of(s, n);
    if n <= b {
        return false;
    }
    let c = s[n - 1];
    c == '/' || (c == '.' && (n - 1 == b || s[n - 2] == '/'))
}

/// Length of `trim_tail` of the first `end` characters of `s`, which is a
/// prefix of them.
fn trim_len(s: &Vec<char>, end: usize) -> (n: usize)
    requires
        end <= s.len(),
    ensures
        n <= end,
        trim_tail(s@.subrange(0, end as int)) == s@.subrange(0, n as int),
{
    let mut n = end;
    while ends_in_skipped_at(s, n)
        invariant
            n <= end <= s.len(),
            trim_tail(s@.subrange(0, end as int)) == trim_tail(s@.subrange(0, n as int)),
        decreases n,
    {
        assert(s@.subrange(0, n as int).drop_last() =~= s@.subrange(0, n - 1));
        n -= 1;
    }
    n
}

/// Position of the last `c` among the first `end` characters, or `None`.
pub fn last_index_in(s: &Vec<char>, end: usize, c: char) -> (r: Option<usize>)
    requires
        end <= s.len(),
    ensures
        r is None <==> last_index_of(s@.subrange(0, end as int), c) == -1,
        r matches Some(k) ==> k as int == last_index_of(s@.subrange(0, end as int), c) && k < end
            && s@[k as int] == c,
{
    let mut n = end;
    while n > 0 && s[n - 1] != c
        invariant
            n <= end <= s.len(),
            last_index_of(s@.subrange(0, end as int), c) == last_index_of(
                s@.subrange(0, n as int),
                c,
            ),
        decreases n,
    {
        assert(s@.subrange(0, n as int).drop_last() =~= s@.subrange(0, n - 1));
        n -= 1;
    }
    proof {
        lemma_last_index(s@.subrange(0, n as int), c);
    }
    if n == 0 {
        None
    } else {
        Some(n - 1)
    }
}

/// `Path::parent`.
pub fn parent_of(p: &Vec<char>) -> (r: Option<Vec<char>>)
    ensures
        match r {
            Some(v) => path_parent(p@) == Some(v@),
            None => path_parent(p@) is None,
        },
{
    let tn = trim_len(p, p.len());
    assert(p@.subrange(0, p.len() as int) =~= p@);
    let ghost t = trim_tail(p@);
    let b = body_start_of(p, tn);
    if tn > b {
        match last_index_in(p, tn, '/') {
            Some(k) => {
                if k >= b {
                    let h = trim_len(p, k);
                    assert(t.subrange(0, k as int) =~= p@.subrange(0, k as int));
                    Some(slice_chars(p, 0, h))
                } else {
                    assert(t.subrange(0, b as int) =~= p@.subrange(0, b as int));
                    Some(slice_chars(p, 0, b))
                }
            },
            None => {
                assert(t.subrange(0, b as int) =~= p@.subrange(0, b as int));
                Some(slice_chars(p, 0, b))
            },
        }
    } else if tn == 1 && p[0] == '.' {
        Some(Vec::new())
    } else {
        None
    }
}

/// `Path::file_name`.
pub fn file_name_of(p: &Vec<char>) -> (r: Option<Vec<char>>)
    ensures
        match r {
            Some(v) => path_file_name(p@) == Some(v@),
            None => path_file_name(p@) is None,
        },
{
    let tn = trim_len(p, p.len());
    assert(p@.subrange(0, p.len() as int) =~= p@);
    let ghost t = trim_tail(p@);
    let b = body_start_of(p, tn);
    if tn <= b {
        return None;
    }
    let start = match last_index_in(p, tn, '/') {
        None => 0,
        Some(k) => k + 1,
    };
    let name = slice_chars(p, start, tn);
    assert(name@ =~= t.subrange(last_index_of(t, '/') + 1, t.len() as int));
    if name.len() == 2 && name[0] == '.' && name[1] == '.' {
        assert(name@ =~= seq!['.', '.']);
        None
    } else {
        assert(name@ != seq!['.', '.']);
        Some(name)
    }
}

/// Splits a file name into its stem and extension (`Path::file_stem`,
/// `Path::extension`).
pub fn split_name(name: &Vec<char>) -> (r: (Vec<char>, Option<Vec<char>>))
    ensures
        r.0@ == name_stem(name@),
        match r.1 {
            Some(e) => name_extension(name@) == Some(e@),
            None => name_extension(name@) is None,
        },
{
    assert(name@.subrange(0, name.len() as int) =~= name@);
    let dots = name.len() == 2 && name[0] == '.' && name[1] == '.';
    if dots {
        assert(name@ =~= seq!['.', '.']);
    } else {
        assert(name@ != seq!['.', '.']);
    }
    match last_index_in(name, name.len(), '.') {
        Some(k) => {
            if dots || k == 0 {
                (copy_chars(name), None)
            } else {
                (slice_chars(name, 0, k), Some(slice_chars(name, k + 1, name.len())))
            }
        },
        None => (copy_chars(name), None),
    }
}

/// `Path::file_stem`.
pub fn file_stem_of(p: &Vec<char>) -> (r: Option<Vec<char>>)
    ensures
        match r {
            Some(v) => path_file_stem(p@) == Some(v@),
            None => path_file_stem(p@) is None,
        },
{
    match file_name_of(p) {
        Some(n) => Some(split_name(&n).0),
        None => None,
    }
}

/// `Path::extension`.
pub fn extension_of(p: &Vec<char>) -> (r: Option<Vec<char>>)
    ensures
        match r {
            Some(v) => path_extension(p@) == Some(v@),
            None => path_extension(p@) is None,
        },
{
    match file_name_of(p) {
        Some(n) => split_name(&n).1,
        None => None,
    }
}

/// `Path::join`.
pub fn join_chars(base: &Vec<char>, name: &Vec<char>) -> (r: Vec<char>)
    ensures
        r@ == path_join(base@, name@),
{
    if name.len() > 0 && name[0] == '/' {
        return copy_chars(name);
    }
    let mut r = copy_chars(base);
    if base.len() > 0 && base[base.len() - 1] != '/' {
        r.push('/');
    }
    append_chars(&mut r, name);
    proof {
        if base.len() > 0 && base@.last() != '/' {
            assert(r@ =~= base@ + seq!['/'] + name@);
        }
    }
    r
}

/// `root` is `path` or an ancestor of it (`Path::starts_with` on canonical paths).
pub fn path_starts_with(path: &Vec<char>, root: &Vec<char>) -> (r: bool)
    ensures
        r == path_has_root(path@, root@),
{
    if chars_eq(path, root) {
        return true;
    }
    if !starts_with_chars(path, root) {
        return false;
    }
    if root.len() > 0 && root[root.len() - 1] == '/' {
        return true;
    }
    path.len() > root.len() && path[root.len()] == '/'
}


// ---------------------------------------------------------------------------
// Components and path equality
// ---------------------------------------------------------------------------

/// A piece between separators that names a component: not empty, not `.`.
pub open spec fn keeps_piece(c: Seq<char>) -> bool {
    c.len() > 0 && c != seq!['.']
}

/// Reading `s` left to right: the kept pieces closed so far, and the piece
/// being read.
pub open spec fn scan_pieces(s: Seq<char>) -> (Seq<Seq<char>>, Seq<char>)
    decreases s.len(),
{
    if s.len() == 0 {
        (seq![], seq![])
    } else {
        let (done, cur) = scan_pieces(s.drop_last());
        if s.last() == '/' {
            (if keeps_piece(cur) { done.push(cur) } else { done }, seq![])
        } else {
            (done, cur.push(s.last()))
        }
    }
}

/// The components of a path body, as text.
pub open spec fn body_components(s: Seq<char>) -> Seq<Seq<char>> {
    let (done, cur) = scan_pieces(s);
    if keeps_piece(cur) {
        done.push(cur)
    } else {
        done
    }
}

/// `Path::components`, as text: `/` for the root, `.` for a leading current
/// directory, then the names and `..`s of the body.
pub open spec fn path_components(p: Seq<char>) -> Seq<Seq<char>> {
    let head: Seq<Seq<char>> = if p.len() > 0 && p[0] == '/' {
        seq![seq!['/']]
    } else if body_start(p) == 1 {
        seq![seq!['.']]
    } else {
        seq![]
    };
    head + body_components(p.subrange(body_start(p), p.len() as int))
}

/// `Path` equality: the same components.
pub open spec fn same_path(a: Seq<char>, b: Seq<char>) -> bool {
    path_components(a) == path_components(b)
}

fn keeps_piece_exec(c: &Vec<char>) -> (r: bool)
    ensures
        r == keeps_piece(c@),
{
    if c.len() == 1 && c[0] == '.' {
        assert(c@ =~= seq!['.']);
        false
    } else {
        if c.len() == 1 {
            assert(c@ != seq!['.']);
        }
        c.len() > 0
    }
}

/// The components of `p`.
pub fn components_of(p: &Vec<char>) -> (r: Vec<Vec<char>>)
    ensures
        crate::text::views(r@) == path_components(p@),
{
    let b = body_start_of(p, p.len());
    assert(p@.subrange(0, p.len() as int) =~= p@);
    let mut out: Vec<Vec<char>> = Vec::new();
    if p.len() > 0 && p[0] == '/' {
        let mut root: Vec<char> = Vec::new();
        root.push('/');
        out.push(root);
    } else if b == 1 {
        let mut cur: Vec<char> = Vec::new();
        cur.push('.');
        out.push(cur);
    }
    let ghost head = crate::text::views(out@);
    assert(head =~= if p@.len() > 0 && p@[0] == '/' {
        seq![seq!['/']]
    } else if body_start(p@) == 1 {
        seq![seq!['.']]
    } else {
        Seq::<Seq<char>>::empty()
    });
    let mut cur: Vec<char> = Vec::new();
    let mut i: usize = b;
    assert(p@.subrange(b as int, b as int) =~= Seq::<char>::empty());
    while i < p.len()
        invariant
            b <= i <= p.len(),
            crate::text::views(out@) == head + scan_pieces(p@.subrange(b as int, i as int)).0,
            cur@ == scan_pieces(p@.subrange(b as int, i as int)).1,
        decreases p.len() - i,
    {
        let ghost before = p@.subrange(b as int, i as int);
        assert(p@.subrange(b as int, i + 1).drop_last() =~= before);
        assert(p@.subrange(b as int, i + 1).last() == p@[i as int]);
        let c = p[i];
        if c == '/' {
            if keeps_piece_exec(&cur) {
                let ghost old_out = out@;
                out.push(cur);
                assert(crate::text::views(out@) =~= crate::text::views(old_out).push(
                    scan_pieces(before).1,
                ));
            }
            cur = Vec::new();
            assert(cur@ =~= Seq::<char>::empty());
        } else {
            cur.push(c);
        }
        i += 1;
    }
    let ghost body = p@.subrange(b as int, p.len() as int);
    if keeps_piece_exec(&cur) {
        let ghost old_out = out@;
        out.push(cur);
        assert(crate::text::views(out@) =~= crate::text::views(old_out).push(scan_pieces(body).1));
    }
    assert(crate::text::views(out@) =~= head + body_components(body));
    out
}

/// Whether `a` and `b` name the same path (`Path` equality).
pub fn same_path_chars(a: &Vec<char>, b: &Vec<char>) -> (r: bool)
    ensures
        r == same_path(a@, b@),
{
    let ca = components_of(a);
    let cb = components_of(b);
    if ca.len() != cb.len() {
        assert(crate::text::views(ca@).len() != crate::text::views(cb@).len());
        return false;
    }
    let mut i: usize = 0;
    while i < ca.len()
        invariant
            i <= ca.len() == cb.len(),
            forall|j: int| 0 <= j < i ==> ca@[j]@ == cb@[j]@,
            crate::text::views(ca@) == path_components(a@),
            crate::text::views(cb@) == path_components(b@),
        decreases ca.len() - i,
    {
        if !chars_eq(&ca[i], &cb[i]) {
            assert(crate::text::views(ca@)[i as int] == ca@[i as int]@);
            assert(crate::text::views(cb@)[i as int] == cb@[i as int]@);
            assert(crate::text::views(ca@) != crate::text::views(cb@));
            return false;
        }
        i += 1;
    }
    assert(crate::text::views(ca@) =~= crate::text::views(cb@));
    true
}

/// Whether two path texts name the same path.
pub fn same_path_str(a: &str, b: &str) -> (r: bool)
    ensures
        r == same_path(a@, b@),
{
    same_path_chars(&crate::text::chars_of(a), &crate::text::chars_of(b))
}

} // verus!
