use vstd::prelude::*;

use crate::text::{append_chars, append_str, chars_of, decimal, decimal_chars, string_from_chars};

verus! {

/// "<prefix>-<timestamp>-<nonce>-<process id>": how operation ids are formed
/// ("op" for sidecar operations, "fsop" for file-system operations).
pub open spec fn spec_operation_id(prefix: Seq<char>, ts: nat, nonce: nat, pid: nat) -> Seq<char> {
    prefix + seq!['-'] + decimal(ts) + seq!['-'] + decimal(nonce) + seq!['-'] + decimal(pid)
}

pub fn format_operation_id(prefix: &str, ts: u64, nonce: u64, pid: u32) -> (r: String)
    ensures
        r@ == spec_operation_id(prefix@, ts as nat, nonce as nat, pid as nat),
{
    let mut v = chars_of(prefix);
    v.push('-');
    append_chars(&mut v, &decimal_chars(ts));
    v.push('-');
    append_chars(&mut v, &decimal_chars(nonce));
    v.push('-');
    append_chars(&mut v, &decimal_chars(pid as u64));
    string_from_chars(&v)
}

proof fn lemma_digit_char(d: nat)
    requires
        d < 10,
    ensures
        crate::text::digit_char(d) as int == 48 + d,
{
}

proof fn lemma_decimal_no_dash(n: nat)
    ensures
        forall|i: int| 0 <= i < decimal(n).len() ==> #[trigger] decimal(n)[i] != '-',
        decimal(n).len() > 0,
    decreases n,
{
    if n >= 10 {
        lemma_decimal_no_dash(n / 10);
        let p = decimal(n / 10);
        lemma_digit_char(n % 10);
        assert forall|i: int| 0 <= i < decimal(n).len() implies #[trigger] decimal(n)[i] != '-' by {
            if i < p.len() {
                assert(decimal(n)[i] == p[i]);
            }
        }
    } else {
        lemma_digit_char(n);
    }
}

proof fn lemma_decimal_injective(a: nat, b: nat)
    requires
        decimal(a) == decimal(b),
    ensures
        a == b,
    decreases a + b,
{
    if a < 10 && b < 10 {
        lemma_digit_char(a);
        lemma_digit_char(b);
        assert(decimal(a)[0] == decimal(b)[0]);
        assert(decimal(a)[0] == crate::text::digit_char(a));
        assert(decimal(b)[0] == crate::text::digit_char(b));
        assert(crate::text::digit_char(a) as int == crate::text::digit_char(b) as int);
    } else if a >= 10 && b >= 10 {
        let pa = decimal(a / 10);
        let pb = decimal(b / 10);
        assert(decimal(a).drop_last() =~= pa);
        assert(decimal(b).drop_last() =~= pb);
        lemma_decimal_injective(a / 10, b / 10);
        lemma_digit_char(a % 10);
        lemma_digit_char(b % 10);
        assert(decimal(a).last() == decimal(b).last());
        assert(decimal(a).last() == crate::text::digit_char(a % 10));
        assert(decimal(b).last() == crate::text::digit_char(b % 10));
        assert(crate::text::digit_char(a % 10) as int == crate::text::digit_char(b % 10) as int);
        assert(a % 10 == b % 10);
        assert(a == (a / 10) * 10 + a % 10);
        assert(b == (b / 10) * 10 + b % 10);
    } else if a < 10 {
        lemma_decimal_no_dash(b / 10);
        assert(decimal(a).len() == 1);
        assert(decimal(b).len() == decimal(b / 10).len() + 1);
    } else {
        lemma_decimal_no_dash(a / 10);
        assert(decimal(b).len() == 1);
        assert(decimal(a).len() == decimal(a / 10).len() + 1);
    }
}

/// In `x + "-" + y == x2 + "-" + y2` with no dash in `x` or `x2`, the parts agree.
proof fn lemma_split_at_dash(x: Seq<char>, y: Seq<char>, x2: Seq<char>, y2: Seq<char>)
    requires
        x + seq!['-'] + y == x2 + seq!['-'] + y2,
        forall|i: int| 0 <= i < x.len() ==> #[trigger] x[i] != '-',
        forall|i: int| 0 <= i < x2.len() ==> #[trigger] x2[i] != '-',
    ensures
        x == x2,
        y == y2,
{
    let s = x + seq!['-'] + y;
    if x.len() < x2.len() {
        assert(s[x.len() as int] == '-');
        assert(s[x.len() as int] == x2[x.len() as int]);
    } else if x2.len() < x.len() {
        assert(s[x2.len() as int] == '-');
        assert(s[x2.len() as int] == x[x2.len() as int]);
    }
    assert(x =~= s.take(x.len() as int));
    assert(x2 =~= s.take(x2.len() as int));
    assert(y =~= s.skip(x.len() as int + 1));
    assert(y2 =~= s.skip(x2.len() as int + 1));
}

proof fn lemma_drop_prefix(a: Seq<char>, r1: Seq<char>, r2: Seq<char>)
    requires
        a + r1 == a + r2,
    ensures
        r1 == r2,
{
    assert(r1 =~= (a + r1).skip(a.len() as int));
    assert(r2 =~= (a + r2).skip(a.len() as int));
}

proof fn lemma_regroup(p: Seq<char>, t: Seq<char>, n: Seq<char>, q: Seq<char>)
    ensures
        p + seq!['-'] + t + seq!['-'] + n + seq!['-'] + q == (p + seq!['-']) + (t + seq!['-'] + (n
            + seq!['-'] + q)),
{
    assert(p + seq!['-'] + t + seq!['-'] + n + seq!['-'] + q =~= (p + seq!['-']) + (t + seq!['-'] + (n
        + seq!['-'] + q)));
}

/// Operation ids formed with the same prefix and process but different
/// nonces differ, whatever their timestamps: the nonce counter alone keeps
/// the ids of one process unique.
pub proof fn lemma_operation_ids_distinct(
    prefix: Seq<char>,
    ts1: nat,
    ts2: nat,
    nonce1: nat,
    nonce2: nat,
    pid: nat,
)
    requires
        nonce1 != nonce2,
    ensures
        spec_operation_id(prefix, ts1, nonce1, pid) != spec_operation_id(prefix, ts2, nonce2, pid),
{
    if spec_operation_id(prefix, ts1, nonce1, pid) == spec_operation_id(prefix, ts2, nonce2, pid) {
        let q = decimal(pid);
        let r1 = decimal(nonce1) + seq!['-'] + q;
        let r2 = decimal(nonce2) + seq!['-'] + q;
        lemma_regroup(prefix, decimal(ts1), decimal(nonce1), q);
        lemma_regroup(prefix, decimal(ts2), decimal(nonce2), q);
        lemma_drop_prefix(prefix + seq!['-'], decimal(ts1) + seq!['-'] + r1, decimal(ts2) + seq!['-'] + r2);
        lemma_decimal_no_dash(ts1);
        lemma_decimal_no_dash(ts2);
        lemma_decimal_no_dash(nonce1);
        lemma_decimal_no_dash(nonce2);
        lemma_split_at_dash(decimal(ts1), r1, decimal(ts2), r2);
        lemma_split_at_dash(decimal(nonce1), q, decimal(nonce2), q);
        lemma_decimal_injective(nonce1, nonce2);
    }
}

} // verus!
