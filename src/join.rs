//! Merge algorithms over sorted label sequences.

use vstd::prelude::*;

use crate::amount::{add_spec, ssb_spec, Amount};
use crate::error::ErrorCode;
use crate::labels::strictly_ascending;
use crate::semantics::{join_values_spec, JoinOp};

verus! {

/// The sorted merge of `a` and `b`, keeping one copy of a label that both
/// hold at the same step.
pub open spec fn union_spec(a: Seq<u128>, b: Seq<u128>) -> Seq<u128>
    decreases a.len() + b.len(),
{
    if a.len() == 0 {
        b
    } else if b.len() == 0 {
        a
    } else if a[0] < b[0] {
        seq![a[0]] + union_spec(a.drop_first(), b)
    } else if b[0] < a[0] {
        seq![b[0]] + union_spec(a, b.drop_first())
    } else {
        seq![a[0]] + union_spec(a.drop_first(), b.drop_first())
    }
}

/// Every label of `b` is a label of `a`.
pub open spec fn labels_subset(b: Seq<u128>, a: Seq<u128>) -> bool {
    forall|k: int| 0 <= k < b.len() ==> a.contains(#[trigger] b[k])
}

/// Where `x` stands in `b`, if anywhere.
pub open spec fn position_of(b: Seq<u128>, x: u128) -> Option<int> {
    if b.contains(x) {
        Some(b.index_of(x))
    } else {
        None
    }
}

/// The left-outer join add: each value of `va` (aligned with `a`) plus the
/// value of `vb` (aligned with `b`) under the same label, if there is one.
pub open spec fn join_add_spec(a: Seq<u128>, b: Seq<u128>, va: Seq<Amount>, vb: Seq<Amount>) -> Seq<
    Option<Amount>,
> {
    Seq::new(
        a.len(),
        |i: int|
            match position_of(b, a[i]) {
                Some(j) => add_spec(va[i], vb[j]),
                None => Some(va[i]),
            },
    )
}

/// The left-outer join saturating subtract.
pub open spec fn join_ssb_spec(a: Seq<u128>, b: Seq<u128>, va: Seq<Amount>, vb: Seq<Amount>) -> Seq<
    Amount,
> {
    Seq::new(
        a.len(),
        |i: int|
            match position_of(b, a[i]) {
                Some(j) => ssb_spec(va[i], vb[j]),
                None => va[i],
            },
    )
}

/// `va`, aligned with `a`, widened to the labels `b`: zero under each label
/// that `a` lacks.
pub open spec fn expand_spec(a: Seq<u128>, b: Seq<u128>, va: Seq<Amount>) -> Seq<Amount> {
    Seq::new(
        b.len(),
        |k: int|
            match position_of(a, b[k]) {
                Some(i) => va[i],
                None => Amount(0),
            },
    )
}

/// `va`, aligned with `a`, narrowed to the labels `b`.
pub open spec fn filter_spec(a: Seq<u128>, b: Seq<u128>, va: Seq<Amount>) -> Seq<Amount> {
    Seq::new(b.len(), |k: int| va[a.index_of(b[k])])
}

pub proof fn lemma_union_members(a: Seq<u128>, b: Seq<u128>, x: u128)
    ensures
        union_spec(a, b).contains(x) <==> a.contains(x) || b.contains(x),
    decreases a.len() + b.len(),
{
    if a.len() == 0 || b.len() == 0 {
    } else {
        let u = union_spec(a, b);
        if a[0] < b[0] {
            lemma_union_members(a.drop_first(), b, x);
            lemma_contains_cons(a, x);
            lemma_contains_cons(u, x);
            assert(u.drop_first() =~= union_spec(a.drop_first(), b));
        } else if b[0] < a[0] {
            lemma_union_members(a, b.drop_first(), x);
            lemma_contains_cons(b, x);
            lemma_contains_cons(u, x);
            assert(u.drop_first() =~= union_spec(a, b.drop_first()));
        } else {
            lemma_union_members(a.drop_first(), b.drop_first(), x);
            lemma_contains_cons(a, x);
            lemma_contains_cons(b, x);
            lemma_contains_cons(u, x);
            assert(u.drop_first() =~= union_spec(a.drop_first(), b.drop_first()));
        }
    }
}

pub proof fn lemma_contains_cons(s: Seq<u128>, x: u128)
    requires
        s.len() > 0,
    ensures
        s.contains(x) <==> s[0] == x || s.drop_first().contains(x),
{
    if s.contains(x) && s[0] != x {
        let i = choose|i: int| 0 <= i < s.len() && s[i] == x;
        assert(s.drop_first()[i - 1] == x);
    }
    if s.drop_first().contains(x) {
        let i = choose|i: int| 0 <= i < s.len() - 1 && s.drop_first()[i] == x;
        assert(s[i + 1] == x);
    }
    if s[0] == x {
        assert(s.contains(x));
    }
}

/// The sorted union of two strictly ascending label sequences is strictly
/// ascending and holds exactly the labels of either.
pub proof fn law_union(a: Seq<u128>, b: Seq<u128>)
    requires
        strictly_ascending(a),
        strictly_ascending(b),
    ensures
        strictly_ascending(union_spec(a, b)),
        forall|x: u128| #[trigger] union_spec(a, b).contains(x) <==> a.contains(x) || b.contains(x),
        union_spec(a, b).to_set() == a.to_set().union(b.to_set()),
    decreases a.len() + b.len(),
{
    assert forall|x: u128| #[trigger] union_spec(a, b).contains(x) <==> a.contains(x) || b.contains(x) by {
        lemma_union_members(a, b, x);
    }
    assert(union_spec(a, b).to_set() =~= a.to_set().union(b.to_set()));
    if a.len() == 0 || b.len() == 0 {
    } else {
        let u = union_spec(a, b);
        let (ta, tb) = if a[0] < b[0] {
            (a.drop_first(), b)
        } else if b[0] < a[0] {
            (a, b.drop_first())
        } else {
            (a.drop_first(), b.drop_first())
        };
        law_union(ta, tb);
        let rest = union_spec(ta, tb);
        assert(u.drop_first() =~= rest);
        assert forall|k: int| 0 <= k < rest.len() implies u[0] < #[trigger] rest[k] by {
            assert(rest.contains(rest[k]));
            if ta.contains(rest[k]) {
                let p = choose|p: int| 0 <= p < ta.len() && ta[p] == rest[k];
                if ta.len() < a.len() {
                    assert(a[p + 1] == ta[p]);
                    assert(a[0] < a[p + 1]);
                } else {
                    assert(a[0] <= a[p]);
                }
            } else {
                let p = choose|p: int| 0 <= p < tb.len() && tb[p] == rest[k];
                if tb.len() < b.len() {
                    assert(b[p + 1] == tb[p]);
                    assert(b[0] < b[p + 1]);
                } else {
                    assert(b[0] <= b[p]);
                }
            }
        }
        assert forall|i: int, j: int| 0 <= i < j < u.len() implies u[i] < u[j] by {
            if i == 0 {
                assert(u[j] == rest[j - 1]);
            } else {
                assert(u[i] == rest[i - 1]);
                assert(u[j] == rest[j - 1]);
            }
        }
    }
}

/// Widening a vector from labels `a` to a strictly ascending superset `b`,
/// and then narrowing it back from `b` to `a`, gives the vector back.
pub proof fn law_expand_filter(a: Seq<u128>, b: Seq<u128>, va: Seq<Amount>)
    requires
        strictly_ascending(a),
        strictly_ascending(b),
        labels_subset(a, b),
        va.len() == a.len(),
    ensures
        filter_spec(b, a, expand_spec(a, b, va)) == va,
{
    let w = expand_spec(a, b, va);
    let r = filter_spec(b, a, w);
    assert forall|k: int| 0 <= k < a.len() implies #[trigger] r[k] == va[k] by {
        assert(b.contains(a[k]));
        let j = b.index_of(a[k]);
        assert(b[j] == a[k]);
        lemma_index_of_ascending(a, k);
    }
    assert(r =~= va);
}

pub proof fn lemma_index_of_ascending(b: Seq<u128>, j: int)
    requires
        strictly_ascending(b),
        0 <= j < b.len(),
    ensures
        b.contains(b[j]),
        b.index_of(b[j]) == j,
{
    assert(b.contains(b[j]));
    let k = b.index_of(b[j]);
    if k < j {
        assert(b[k] < b[j]);
    } else if k > j {
        assert(b[j] < b[k]);
    }
}

/// Whether `s` is strictly ascending.
pub fn is_strictly_ascending(s: &[u128]) -> (r: bool)
    ensures
        r == strictly_ascending(s@),
{
    let n = s.len();
    let mut i: usize = 1;
    if n == 0 {
        return true;
    }
    while i < n
        invariant
            1 <= i <= n,
            n == s@.len(),
            forall|p: int, q: int| 0 <= p < q < i ==> s@[p] < s@[q],
        decreases n - i,
    {
        if s[i - 1] >= s[i] {
            return false;
        }
        i = i + 1;
    }
    true
}

/// For each label of `a`, where it stands in `b`.
pub fn positions(a: &[u128], b: &[u128]) -> (r: Vec<Option<usize>>)
    requires
        strictly_ascending(a@),
        strictly_ascending(b@),
    ensures
        r@.len() == a@.len(),
        forall|i: int|
            0 <= i < a@.len() ==> match #[trigger] r@[i] {
                Some(j) => position_of(b@, a@[i]) == Some(j as int),
                None => position_of(b@, a@[i]) is None,
            },
{
    let n = a.len();
    let m = b.len();
    let mut out: Vec<Option<usize>> = Vec::new();
    let mut i: usize = 0;
    let mut j: usize = 0;
    while i < n
        invariant
            n == a@.len(),
            m == b@.len(),
            strictly_ascending(a@),
            strictly_ascending(b@),
            i <= n,
            j <= m,
            out@.len() == i,
            i < n ==> forall|k: int| 0 <= k < j ==> b@[k] < a@[i as int],
            forall|p: int|
                0 <= p < i ==> match #[trigger] out@[p] {
                    Some(q) => position_of(b@, a@[p]) == Some(q as int),
                    None => position_of(b@, a@[p]) is None,
                },
        decreases n - i,
    {
        while j < m && b[j] < a[i]
            invariant
                n == a@.len(),
                m == b@.len(),
                i < n,
                j <= m,
                forall|k: int| 0 <= k < j ==> b@[k] < a@[i as int],
            decreases m - j,
        {
            j = j + 1;
        }
        if j < m && b[j] == a[i] {
            proof {
                lemma_index_of_ascending(b@, j as int);
            }
            out.push(Some(j));
        } else {
            proof {
                assert forall|k: int| 0 <= k < m implies b@[k] != a@[i as int] by {
                    if k >= j {
                        assert(b@[j as int] <= b@[k]);
                    }
                }
            }
            out.push(None);
        }
        proof {
            if i + 1 < n {
                assert(a@[i as int] < a@[i + 1]);
            }
        }
        i = i + 1;
    }
    out
}

/// Whether every label of `b` is a label of `a`.
pub fn is_subset(b: &[u128], a: &[u128]) -> (r: bool)
    requires
        strictly_ascending(a@),
        strictly_ascending(b@),
    ensures
        r == labels_subset(b@, a@),
{
    let p = positions(b, a);
    let mut k: usize = 0;
    while k < p.len()
        invariant
            p@.len() == b@.len(),
            k <= p@.len(),
            forall|i: int|
                0 <= i < b@.len() ==> match #[trigger] p@[i] {
                    Some(j) => position_of(a@, b@[i]) == Some(j as int),
                    None => position_of(a@, b@[i]) is None,
                },
            forall|i: int| 0 <= i < k ==> a@.contains(#[trigger] b@[i]),
        decreases p@.len() - k,
    {
        if p[k].is_none() {
            assert(!a@.contains(b@[k as int]));
            return false;
        }
        assert(p@[k as int] is Some);
        k = k + 1;
    }
    true
}

/// The vector that a join with distinct label positions leaves on top.
pub fn join_values(
    op: JoinOp,
    top: &Vec<Amount>,
    under: &Vec<Amount>,
    la: &Vec<u128>,
    lb: &Vec<u128>,
) -> (r: Result<Vec<Amount>, ErrorCode>)
    ensures
        match r {
            Ok(v) => join_values_spec(op, top@, under@, la@, lb@) == Ok::<Seq<Amount>, ErrorCode>(v@),
            Err(e) => join_values_spec(op, top@, under@, la@, lb@) == Err::<Seq<Amount>, ErrorCode>(e),
        },
{
    let two = match op {
        JoinOp::Add => true,
        JoinOp::Ssb => true,
        _ => false,
    };
    let carrier = if two {
        under
    } else {
        top
    };
    if carrier.len() != la.len() || (two && top.len() != lb.len()) {
        return Err(ErrorCode::NotAligned);
    }
    if !is_strictly_ascending(la.as_slice()) || !is_strictly_ascending(lb.as_slice()) {
        return Err(ErrorCode::NotFound);
    }
    match op {
        JoinOp::Add => {
            if !is_subset(lb.as_slice(), la.as_slice()) {
                return Err(ErrorCode::MathUnderflow);
            }
            let p = positions(la.as_slice(), lb.as_slice());
            let ghost spec_r = join_add_spec(la@, lb@, carrier@, top@);
            let mut out: Vec<Amount> = Vec::new();
            let mut i: usize = 0;
            while i < la.len()
                invariant
                    spec_r == join_add_spec(la@, lb@, carrier@, top@),
                    carrier@ == under@,
                    op == JoinOp::Add,
                    strictly_ascending(la@),
                    strictly_ascending(lb@),
                    labels_subset(lb@, la@),
                    carrier@.len() == la@.len(),
                    top@.len() == lb@.len(),
                    p@.len() == la@.len(),
                    forall|k: int|
                        0 <= k < la@.len() ==> match #[trigger] p@[k] {
                            Some(j) => position_of(lb@, la@[k]) == Some(j as int),
                            None => position_of(lb@, la@[k]) is None,
                        },
                    i <= la@.len(),
                    out@.len() == i,
                    forall|k: int| 0 <= k < i ==> (#[trigger] spec_r[k]) is Some && out@[k] == spec_r[k]->Some_0,
                decreases la@.len() - i,
            {
                let x = match p[i] {
                    Some(j) => {
                        proof {
                            let w = choose|q: int| 0 <= q < lb@.len() && lb@[q] == la@[i as int];
                            assert(lb@.contains(la@[i as int]));
                        }
                        match carrier[i].checked_add(top[j]) {
                            Some(v) => v,
                            None => {
                                assert(spec_r[i as int] is None);
                                assert(under@ == carrier@);
                                return Err(ErrorCode::MathOverflow);
                            },
                        }
                    },
                    None => carrier[i],
                };
                out.push(x);
                i = i + 1;
            }
            assert(out@ =~= spec_r.map_values(|x: Option<Amount>| x->Some_0));
            Ok(out)
        },
        JoinOp::Ssb => {
            if !is_subset(lb.as_slice(), la.as_slice()) {
                return Err(ErrorCode::MathUnderflow);
            }
            let p = positions(la.as_slice(), lb.as_slice());
            let ghost spec_r = join_ssb_spec(la@, lb@, carrier@, top@);
            let mut out: Vec<Amount> = Vec::new();
            let mut i: usize = 0;
            while i < la.len()
                invariant
                    spec_r == join_ssb_spec(la@, lb@, carrier@, top@),
                    carrier@ == under@,
                    carrier@.len() == la@.len(),
                    top@.len() == lb@.len(),
                    p@.len() == la@.len(),
                    forall|k: int|
                        0 <= k < la@.len() ==> match #[trigger] p@[k] {
                            Some(j) => position_of(lb@, la@[k]) == Some(j as int),
                            None => position_of(lb@, la@[k]) is None,
                        },
                    i <= la@.len(),
                    out@ =~= spec_r.take(i as int),
                decreases la@.len() - i,
            {
                let x = match p[i] {
                    Some(j) => {
                        proof {
                            assert(lb@.contains(la@[i as int]));
                        }
                        carrier[i].saturating_sub(top[j])
                    },
                    None => carrier[i],
                };
                out.push(x);
                i = i + 1;
            }
            assert(spec_r.take(la@.len() as int) =~= spec_r);
            Ok(out)
        },
        JoinOp::Expand => {
            if !is_subset(la.as_slice(), lb.as_slice()) {
                return Err(ErrorCode::NotFound);
            }
            let q = positions(lb.as_slice(), la.as_slice());
            let ghost spec_r = expand_spec(la@, lb@, top@);
            let mut out: Vec<Amount> = Vec::new();
            let mut k: usize = 0;
            while k < lb.len()
                invariant
                    spec_r == expand_spec(la@, lb@, top@),
                    top@.len() == la@.len(),
                    q@.len() == lb@.len(),
                    forall|m: int|
                        0 <= m < lb@.len() ==> match #[trigger] q@[m] {
                            Some(j) => position_of(la@, lb@[m]) == Some(j as int),
                            None => position_of(la@, lb@[m]) is None,
                        },
                    k <= lb@.len(),
                    out@ =~= spec_r.take(k as int),
                decreases lb@.len() - k,
            {
                let x = match q[k] {
                    Some(i) => {
                        proof {
                            assert(la@.contains(lb@[k as int]));
                        }
                        top[i]
                    },
                    None => Amount(0),
                };
                out.push(x);
                k = k + 1;
            }
            assert(spec_r.take(lb@.len() as int) =~= spec_r);
            Ok(out)
        },
        JoinOp::Filter => {
            if !is_subset(lb.as_slice(), la.as_slice()) {
                return Err(ErrorCode::NotFound);
            }
            let q = positions(lb.as_slice(), la.as_slice());
            let ghost spec_r = filter_spec(la@, lb@, top@);
            let mut out: Vec<Amount> = Vec::new();
            let mut k: usize = 0;
            while k < lb.len()
                invariant
                    spec_r == filter_spec(la@, lb@, top@),
                    top@.len() == la@.len(),
                    labels_subset(lb@, la@),
                    q@.len() == lb@.len(),
                    forall|m: int|
                        0 <= m < lb@.len() ==> match #[trigger] q@[m] {
                            Some(j) => position_of(la@, lb@[m]) == Some(j as int),
                            None => position_of(la@, lb@[m]) is None,
                        },
                    k <= lb@.len(),
                    out@ =~= spec_r.take(k as int),
                decreases lb@.len() - k,
            {
                assert(la@.contains(lb@[k as int]));
                let x = match q[k] {
                    Some(i) => top[i],
                    None => Amount(0),
                };
                out.push(x);
                k = k + 1;
            }
            assert(spec_r.take(lb@.len() as int) =~= spec_r);
            Ok(out)
        },
    }
}

/// The sorted merge of `a` and `b`.
pub fn label_union(a: &[u128], b: &[u128]) -> (r: Vec<u128>)
    ensures
        r@ == union_spec(a@, b@),
{
    let n = a.len();
    let m = b.len();
    let mut out: Vec<u128> = Vec::new();
    let mut i: usize = 0;
    let mut j: usize = 0;
    proof {
        assert(a@.subrange(0, n as int) =~= a@);
        assert(b@.subrange(0, m as int) =~= b@);
        assert(out@ + union_spec(a@, b@) =~= union_spec(a@, b@));
    }
    while i < n || j < m
        invariant
            n == a@.len(),
            m == b@.len(),
            i <= n,
            j <= m,
            out@ + union_spec(a@.subrange(i as int, n as int), b@.subrange(j as int, m as int))
                == union_spec(a@, b@),
        decreases n - i + m - j,
    {
        let ghost sa = a@.subrange(i as int, n as int);
        let ghost sb = b@.subrange(j as int, m as int);
        let ghost before = out@;
        if i == n {
            out.push(b[j]);
            proof {
                assert(sb.drop_first() =~= b@.subrange(j + 1, m as int));
                assert(union_spec(sa, sb) == sb);
                assert(union_spec(sa, sb.drop_first()) == sb.drop_first());
                assert(sb =~= seq![b@[j as int]] + sb.drop_first());
            }
            j = j + 1;
        } else if j == m {
            out.push(a[i]);
            proof {
                assert(sa.drop_first() =~= a@.subrange(i + 1, n as int));
                assert(union_spec(sa, sb) == sa);
                assert(union_spec(sa.drop_first(), sb) == sa.drop_first());
                assert(sa =~= seq![a@[i as int]] + sa.drop_first());
            }
            i = i + 1;
        } else if a[i] < b[j] {
            out.push(a[i]);
            proof {
                assert(sa.drop_first() =~= a@.subrange(i + 1, n as int));
            }
            i = i + 1;
        } else if b[j] < a[i] {
            out.push(b[j]);
            proof {
                assert(sb.drop_first() =~= b@.subrange(j + 1, m as int));
            }
            j = j + 1;
        } else {
            out.push(a[i]);
            proof {
                assert(sa.drop_first() =~= a@.subrange(i + 1, n as int));
                assert(sb.drop_first() =~= b@.subrange(j + 1, m as int));
            }
            i = i + 1;
            j = j + 1;
        }
        proof {
            let sa2 = a@.subrange(i as int, n as int);
            let sb2 = b@.subrange(j as int, m as int);
            assert(out@ + union_spec(sa2, sb2) =~= before + union_spec(sa, sb));
        }
    }
    proof {
        assert(a@.subrange(n as int, n as int) =~= Seq::<u128>::empty());
        assert(b@.subrange(m as int, m as int) =~= Seq::<u128>::empty());
        assert(union_spec(Seq::<u128>::empty(), Seq::<u128>::empty()) == Seq::<u128>::empty());
        assert(out@ + Seq::<u128>::empty() =~= out@);
    }
    out
}

} // verus!
