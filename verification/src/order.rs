use vstd::prelude::*;

verus! {

/// `a` sorts strictly before `b`: the order of `str`'s `Ord`, which compares
/// code points from the left, a proper prefix first.
pub open spec fn text_lt(a: Seq<char>, b: Seq<char>) -> bool
    decreases a.len(),
{
    if a.len() == 0 {
        b.len() > 0
    } else if b.len() == 0 {
        false
    } else if a[0] != b[0] {
        a[0] < b[0]
    } else {
        text_lt(a.drop_first(), b.drop_first())
    }
}

pub proof fn lemma_text_lt_irreflexive(a: Seq<char>)
    ensures
        !text_lt(a, a),
    decreases a.len(),
{
    if a.len() > 0 {
        lemma_text_lt_irreflexive(a.drop_first());
    }
}

pub proof fn lemma_text_lt_transitive(a: Seq<char>, b: Seq<char>, c: Seq<char>)
    requires
        text_lt(a, b),
        text_lt(b, c),
    ensures
        text_lt(a, c),
    decreases a.len(),
{
    if a.len() > 0 && b.len() > 0 && c.len() > 0 && a[0] == b[0] && b[0] == c[0] {
        lemma_text_lt_transitive(a.drop_first(), b.drop_first(), c.drop_first());
    }
}

pub proof fn lemma_text_lt_total(a: Seq<char>, b: Seq<char>)
    ensures
        a == b || text_lt(a, b) || text_lt(b, a),
    decreases a.len(),
{
    if a.len() > 0 && b.len() > 0 {
        if a[0] == b[0] {
            lemma_text_lt_total(a.drop_first(), b.drop_first());
            if a.drop_first() == b.drop_first() {
                assert(a =~= seq![a[0]] + a.drop_first());
                assert(b =~= seq![b[0]] + b.drop_first());
            }
        }
    } else if a.len() == 0 && b.len() == 0 {
        assert(a =~= b);
    }
}

pub proof fn lemma_text_lt_asymmetric(a: Seq<char>, b: Seq<char>)
    requires
        text_lt(a, b),
    ensures
        !text_lt(b, a),
{
    if text_lt(b, a) {
        lemma_text_lt_transitive(a, b, a);
        lemma_text_lt_irreflexive(a);
    }
}

/// Exact comparison of two character vectors in `str` order.
pub fn chars_lt(a: &Vec<char>, b: &Vec<char>) -> (r: bool)
    ensures
        r == text_lt(a@, b@),
{
    let mut i: usize = 0;
    assert(a@.skip(0) =~= a@);
    assert(b@.skip(0) =~= b@);
    while i < a.len() && i < b.len() && a[i] == b[i]
        invariant
            i <= a.len(),
            i <= b.len(),
            text_lt(a@, b@) == text_lt(a@.skip(i as int), b@.skip(i as int)),
        decreases a.len() - i,
    {
        assert(a@.skip(i as int).drop_first() =~= a@.skip(i + 1));
        assert(b@.skip(i as int).drop_first() =~= b@.skip(i + 1));
        assert(a@.skip(i as int)[0] == a@[i as int]);
        assert(b@.skip(i as int)[0] == b@[i as int]);
        i += 1;
    }
    if i == a.len() {
        assert(a@.skip(i as int).len() == 0);
        i < b.len()
    } else if i == b.len() {
        assert(b@.skip(i as int).len() == 0);
        false
    } else {
        assert(a@.skip(i as int)[0] == a@[i as int]);
        assert(b@.skip(i as int)[0] == b@[i as int]);
        a[i] < b[i]
    }
}

/// Values ordered by a text key.
pub trait SortKey: Sized {
    spec fn sort_key(&self) -> Seq<char>;

    fn sort_key_chars(&self) -> (r: Vec<char>)
        ensures
            r@ == self.sort_key(),
    ;
}

/// Inserts `x` after every element whose key does not sort after its own.
pub open spec fn insert_keyed<T: SortKey>(s: Seq<T>, x: T) -> Seq<T>
    decreases s.len(),
{
    if s.len() == 0 {
        seq![x]
    } else if text_lt(x.sort_key(), s.last().sort_key()) {
        insert_keyed(s.drop_last(), x).push(s.last())
    } else {
        s.push(x)
    }
}

/// The stable sort by key (`slice::sort_by` on the keys' `str` order).
pub open spec fn sort_keyed<T: SortKey>(s: Seq<T>) -> Seq<T>
    decreases s.len(),
{
    if s.len() == 0 {
        seq![]
    } else {
        insert_keyed(sort_keyed(s.drop_last()), s.last())
    }
}

pub open spec fn keys_sorted<T: SortKey>(s: Seq<T>) -> bool {
    forall|i: int, j: int| 0 <= i < j < s.len() ==> !text_lt(#[trigger] s[j].sort_key(), #[trigger] s[i].sort_key())
}

proof fn lemma_insert_at<T: SortKey>(s: Seq<T>, x: T, j: int)
    requires
        0 <= j <= s.len(),
        forall|k: int| j <= k < s.len() ==> text_lt(x.sort_key(), #[trigger] s[k].sort_key()),
        j > 0 ==> !text_lt(x.sort_key(), s[j - 1].sort_key()),
    ensures
        insert_keyed(s, x) == s.take(j).push(x) + s.skip(j),
    decreases s.len(),
{
    if s.len() == 0 {
        assert(s.take(j).push(x) + s.skip(j) =~= seq![x]);
    } else if j == s.len() {
        assert(s.take(j) =~= s);
        assert(s.take(j).push(x) + s.skip(j) =~= s.push(x));
    } else {
        assert(text_lt(x.sort_key(), s.last().sort_key()));
        lemma_insert_at(s.drop_last(), x, j);
        let d = s.drop_last();
        assert(d.take(j) =~= s.take(j));
        assert((d.take(j).push(x) + d.skip(j)).push(s.last()) =~= s.take(j).push(x) + s.skip(j));
    }
}

proof fn lemma_insert_keeps_sorted<T: SortKey>(s: Seq<T>, x: T)
    requires
        keys_sorted(s),
    ensures
        keys_sorted(insert_keyed(s, x)),
        insert_keyed(s, x).len() == s.len() + 1,
        forall|k: int|
            0 <= k < insert_keyed(s, x).len() ==> #[trigger] insert_keyed(s, x)[k] == x || s.contains(
                insert_keyed(s, x)[k],
            ),
    decreases s.len(),
{
    let r = insert_keyed(s, x);
    if s.len() == 0 {
    } else if text_lt(x.sort_key(), s.last().sort_key()) {
        let d = s.drop_last();
        assert(keys_sorted(d)) by {
            assert forall|i: int, j: int| 0 <= i < j < d.len() implies !text_lt(
                #[trigger] d[j].sort_key(),
                #[trigger] d[i].sort_key(),
            ) by {
                assert(d[i] == s[i] && d[j] == s[j]);
            }
        }
        lemma_insert_keeps_sorted(d, x);
        let p = insert_keyed(d, x);
        assert(r == p.push(s.last()));
        assert forall|k: int| 0 <= k < r.len() implies #[trigger] r[k] == x || s.contains(r[k]) by {
            if k < p.len() {
                assert(r[k] == p[k]);
                if p[k] != x {
                    let w = choose|w: int| 0 <= w < d.len() && d[w] == p[k];
                    assert(s[w] == p[k]);
                }
            } else {
                assert(s[s.len() - 1] == r[k]);
            }
        }
        assert forall|i: int, j: int| 0 <= i < j < r.len() implies !text_lt(
            #[trigger] r[j].sort_key(),
            #[trigger] r[i].sort_key(),
        ) by {
            if j == r.len() - 1 {
                assert(r[j] == s.last());
                assert(r[i] == p[i]);
                if p[i] == x {
                    lemma_text_lt_asymmetric(x.sort_key(), s.last().sort_key());
                } else {
                    let w = choose|w: int| 0 <= w < d.len() && d[w] == p[i];
                    assert(s[w] == p[i]);
                    assert(!text_lt(s[s.len() - 1].sort_key(), s[w].sort_key()));
                }
            } else {
                assert(r[i] == p[i] && r[j] == p[j]);
            }
        }
    } else {
        assert forall|k: int| 0 <= k < r.len() implies #[trigger] r[k] == x || s.contains(r[k]) by {
            if k < s.len() {
                assert(r[k] == s[k]);
            }
        }
        assert forall|i: int, j: int| 0 <= i < j < r.len() implies !text_lt(
            #[trigger] r[j].sort_key(),
            #[trigger] r[i].sort_key(),
        ) by {
            if j == s.len() {
                assert(r[j] == x);
                assert(r[i] == s[i]);
                if i < s.len() - 1 {
                    assert(!text_lt(s[s.len() - 1].sort_key(), s[i].sort_key()));
                    if text_lt(x.sort_key(), s[i].sort_key()) {
                        lemma_text_lt_total(s[i].sort_key(), s[s.len() - 1].sort_key());
                        if text_lt(s[i].sort_key(), s[s.len() - 1].sort_key()) {
                            lemma_text_lt_transitive(x.sort_key(), s[i].sort_key(), s[s.len() - 1].sort_key());
                        } else {
                            assert(s[i].sort_key() == s[s.len() - 1].sort_key());
                        }
                    }
                }
            } else {
                assert(r[i] == s[i] && r[j] == s[j]);
            }
        }
    }
}

/// The stable sort is sorted.
pub proof fn lemma_sort_keyed_sorted<T: SortKey>(s: Seq<T>)
    ensures
        keys_sorted(sort_keyed(s)),
        sort_keyed(s).len() == s.len(),
    decreases s.len(),
{
    if s.len() > 0 {
        lemma_sort_keyed_sorted(s.drop_last());
        lemma_insert_keeps_sorted(sort_keyed(s.drop_last()), s.last());
    }
}

/// Sorts by key, keeping the order of equal keys.
pub fn sort_by_key<T: SortKey>(items: Vec<T>) -> (r: Vec<T>)
    ensures
        r@ == sort_keyed(items@),
        keys_sorted(r@),
{
    let mut res: Vec<T> = Vec::new();
    let mut rest = items;
    let ghost orig = rest@;
    let n = rest.len();
    assert(orig.len() == n);
    let mut taken: usize = 0;
    // Take from the front: reverse first so that `pop` yields the items in order.
    let mut stack: Vec<T> = Vec::new();
    while rest.len() > 0
        invariant
            stack@.len() + rest@.len() == orig.len(),
            orig.len() <= usize::MAX,
            rest@ == orig.take(rest@.len() as int),
            forall|k: int| 0 <= k < stack@.len() ==> #[trigger] stack@[k] == orig[orig.len() - 1 - k],
        decreases rest.len(),
    {
        let x = rest.pop().unwrap();
        stack.push(x);
        assert(rest@ =~= orig.take(rest@.len() as int));
    }
    while stack.len() > 0
        invariant
            taken + stack@.len() == orig.len(),
            orig.len() <= usize::MAX,
            forall|k: int| 0 <= k < stack@.len() ==> #[trigger] stack@[k] == orig[orig.len() - 1 - k],
            res@ == sort_keyed(orig.take(taken as int)),
            keys_sorted(res@),
        decreases stack.len(),
    {
        let x = stack.pop().unwrap();
        assert(x == orig[taken as int]);
        assert(orig.take(taken + 1).drop_last() =~= orig.take(taken as int));
        assert(orig.take(taken + 1).last() == x);
        let xk = x.sort_key_chars();
        let mut j: usize = res.len();
        while j > 0 && chars_lt(&xk, &res[j - 1].sort_key_chars())
            invariant
                j <= res.len(),
                xk@ == x.sort_key(),
                forall|k: int| j <= k < res@.len() ==> text_lt(x.sort_key(), #[trigger] res@[k].sort_key()),
            decreases j,
        {
            j -= 1;
        }
        proof {
            lemma_insert_at(res@, x, j as int);
            lemma_insert_keeps_sorted(res@, x);
        }
        let ghost before = res@;
        res.insert(j, x);
        assert(res@ =~= before.take(j as int).push(x) + before.skip(j as int));
        taken += 1;
    }
    assert(orig.take(taken as int) =~= orig);
    assert(orig =~= items@);
    res
}

} // verus!
