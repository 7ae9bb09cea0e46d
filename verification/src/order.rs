//! Deterministic order on define pairs: names by character code, then the
//! optional values, a value-less define first. Sorting the global define
//! list by this order makes the emitted script independent of the order in
//! which targets and command-line defines arrived.

use vstd::prelude::*;
use vstd::relations::{sorted_by, total_ordering};
use vstd::seq_lib::lemma_sorted_unique;
use crate::model::{def_view, defs_view, str_eq};

verus! {

/// Lexicographic order on character sequences, by code point.
pub open spec fn chars_le(a: Seq<char>, b: Seq<char>) -> bool
    decreases a.len(),
{
    if a.len() == 0 {
        true
    } else if b.len() == 0 {
        false
    } else if a.first() == b.first() {
        chars_le(a.drop_first(), b.drop_first())
    } else {
        (a.first() as u32) < (b.first() as u32)
    }
}

/// Order on optional values: a missing value comes first.
pub open spec fn opt_chars_le(a: Option<Seq<char>>, b: Option<Seq<char>>) -> bool {
    match (a, b) {
        (Option::None, _) => true,
        (Option::Some(_), Option::None) => false,
        (Option::Some(x), Option::Some(y)) => chars_le(x, y),
    }
}

/// Order on define pairs: by name, then by value.
pub open spec fn def_le(
    a: (Seq<char>, Option<Seq<char>>),
    b: (Seq<char>, Option<Seq<char>>),
) -> bool {
    if a.0 == b.0 {
        opt_chars_le(a.1, b.1)
    } else {
        chars_le(a.0, b.0)
    }
}

/// The define order as a relation value.
pub open spec fn def_order() -> spec_fn(
    (Seq<char>, Option<Seq<char>>),
    (Seq<char>, Option<Seq<char>>),
) -> bool {
    |a: (Seq<char>, Option<Seq<char>>), b: (Seq<char>, Option<Seq<char>>)| def_le(a, b)
}

proof fn lemma_chars_le_refl(a: Seq<char>)
    ensures
        chars_le(a, a),
    decreases a.len(),
{
    if a.len() > 0 {
        lemma_chars_le_refl(a.drop_first());
    }
}

proof fn lemma_chars_le_total(a: Seq<char>, b: Seq<char>)
    ensures
        chars_le(a, b) || chars_le(b, a),
    decreases a.len(),
{
    if a.len() > 0 && b.len() > 0 {
        if a.first() == b.first() {
            lemma_chars_le_total(a.drop_first(), b.drop_first());
        } else {
            assert((a.first() as u32) != (b.first() as u32)) by {
                vstd::utf8::char_u32_cast(a.first(), a.first() as u32);
                vstd::utf8::char_u32_cast(b.first(), b.first() as u32);
            }
        }
    }
}

proof fn lemma_chars_le_antisym(a: Seq<char>, b: Seq<char>)
    requires
        chars_le(a, b),
        chars_le(b, a),
    ensures
        a == b,
    decreases a.len(),
{
    if a.len() == 0 {
        assert(b.len() == 0);
        assert(a =~= b);
    } else {
        assert(b.len() > 0);
        assert(a.first() == b.first());
        lemma_chars_le_antisym(a.drop_first(), b.drop_first());
        assert(a =~= b) by {
            assert(forall|i: int| 1 <= i < a.len() ==> #[trigger] a[i] == a.drop_first()[i - 1]);
            assert(forall|i: int| 1 <= i < b.len() ==> #[trigger] b[i] == b.drop_first()[i - 1]);
        }
    }
}

proof fn lemma_chars_le_trans(a: Seq<char>, b: Seq<char>, c: Seq<char>)
    requires
        chars_le(a, b),
        chars_le(b, c),
    ensures
        chars_le(a, c),
    decreases a.len(),
{
    if a.len() == 0 {
    } else {
        assert(b.len() > 0);
        assert(c.len() > 0);
        if a.first() == b.first() && b.first() == c.first() {
            lemma_chars_le_trans(a.drop_first(), b.drop_first(), c.drop_first());
        }
    }
}

/// The define order is a total order.
pub proof fn lemma_def_order_total()
    ensures
        total_ordering(def_order()),
{
    let r = def_order();
    assert forall|a: (Seq<char>, Option<Seq<char>>)| #[trigger] r(a, a) by {
        match a.1 {
            Option::Some(x) => lemma_chars_le_refl(x),
            Option::None => {},
        }
    }
    assert forall|a: (Seq<char>, Option<Seq<char>>), b: (Seq<char>, Option<Seq<char>>)|
        #[trigger] r(a, b) && #[trigger] r(b, a) implies a == b by {
        if a.0 == b.0 {
            match (a.1, b.1) {
                (Option::Some(x), Option::Some(y)) => {
                    lemma_chars_le_antisym(x, y);
                },
                _ => {},
            }
        } else {
            lemma_chars_le_antisym(a.0, b.0);
        }
    }
    assert forall|a: (Seq<char>, Option<Seq<char>>), b: (Seq<char>, Option<Seq<char>>), c: (
        Seq<char>,
        Option<Seq<char>>,
    )| #[trigger] r(a, b) && #[trigger] r(b, c) implies r(a, c) by {
        if a.0 == b.0 && b.0 == c.0 {
            match (a.1, b.1, c.1) {
                (Option::Some(x), Option::Some(y), Option::Some(z)) => {
                    lemma_chars_le_trans(x, y, z);
                },
                _ => {},
            }
        } else if a.0 == b.0 {
            assert(chars_le(b.0, c.0));
        } else if b.0 == c.0 {
            assert(chars_le(a.0, b.0));
        } else {
            lemma_chars_le_trans(a.0, b.0, c.0);
            if a.0 == c.0 {
                lemma_chars_le_antisym(a.0, b.0);
            }
        }
    }
    assert forall|a: (Seq<char>, Option<Seq<char>>), b: (Seq<char>, Option<Seq<char>>)|
        #[trigger] r(a, b) || #[trigger] r(b, a) by {
        if a.0 == b.0 {
            match (a.1, b.1) {
                (Option::Some(x), Option::Some(y)) => {
                    lemma_chars_le_total(x, y);
                },
                _ => {},
            }
        } else {
            lemma_chars_le_total(a.0, b.0);
        }
    }
}

/// Lexicographic comparison of two strings.
fn chars_le_exec(a: &str, b: &str) -> (r: bool)
    ensures
        r == chars_le(a@, b@),
{
    let an = a.unicode_len();
    let bn = b.unicode_len();
    let mut i: usize = 0;
    proof {
        assert(a@.skip(0) =~= a@);
        assert(b@.skip(0) =~= b@);
    }
    while i < an && i < bn
        invariant
            0 <= i <= an,
            0 <= i <= bn,
            an == a@.len(),
            bn == b@.len(),
            chars_le(a@, b@) == chars_le(a@.skip(i as int), b@.skip(i as int)),
            chars_le(b@, a@) == chars_le(b@.skip(i as int), a@.skip(i as int)),
        decreases an - i,
    {
        let ca = a.get_char(i);
        let cb = b.get_char(i);
        proof {
            assert(a@.skip(i as int).first() == a@[i as int]);
            assert(b@.skip(i as int).first() == b@[i as int]);
        }
        if ca != cb {
            return (ca as u32) < (cb as u32);
        }
        proof {
            assert(a@.skip(i as int).drop_first() =~= a@.skip(i + 1));
            assert(b@.skip(i as int).drop_first() =~= b@.skip(i + 1));
        }
        i += 1;
    }
    proof {
        if i >= an {
            assert(a@.skip(i as int).len() == 0);
        } else {
            assert(b@.skip(i as int).len() == 0);
            assert(a@.skip(i as int).len() > 0);
        }
    }
    i >= an
}

/// Comparison of two define pairs in the define order.
fn def_le_exec(a: &(String, Option<String>), b: &(String, Option<String>)) -> (r: bool)
    ensures
        r == def_le(def_view(*a), def_view(*b)),
{
    if str_eq(a.0.as_str(), b.0.as_str()) {
        match (&a.1, &b.1) {
            (Option::None, _) => true,
            (Option::Some(_), Option::None) => false,
            (Option::Some(x), Option::Some(y)) => chars_le_exec(x.as_str(), y.as_str()),
        }
    } else {
        chars_le_exec(a.0.as_str(), b.0.as_str())
    }
}

/// A define list sorted by the define order.
pub open spec fn spec_sort_defines(
    s: Seq<(Seq<char>, Option<Seq<char>>)>,
) -> Seq<(Seq<char>, Option<Seq<char>>)> {
    s.sort_by(def_order())
}

/// Sorts a define list by name, then value (insertion sort).
pub fn sort_defines(v: &Vec<(String, Option<String>)>) -> (r: Vec<(String, Option<String>)>)
    ensures
        defs_view(r) == spec_sort_defines(defs_view(*v)),
{
    proof {
        lemma_def_order_total();
        broadcast use vstd::seq_lib::group_to_multiset_ensures;

    }
    let ghost le = def_order();
    let mut out: Vec<(String, Option<String>)> = Vec::new();
    let mut i: usize = 0;
    proof {
        assert(defs_view(*v).take(0) =~= Seq::<(Seq<char>, Option<Seq<char>>)>::empty());
        assert(defs_view(out) =~= Seq::<(Seq<char>, Option<Seq<char>>)>::empty());
    }
    while i < v.len()
        invariant
            0 <= i <= v.len(),
            sorted_by(defs_view(out), def_order()),
            defs_view(out).to_multiset() == defs_view(*v).take(i as int).to_multiset(),
        decreases v.len() - i,
    {
        let name = v[i].0.clone();
        let value = crate::model::clone_opt_string(&v[i].1);
        let x = (name, value);
        let ghost xv = def_view(x);
        proof {
            assert(xv == defs_view(*v)[i as int]);
        }
        let ghost outv = defs_view(out);
        let mut j: usize = 0;
        while j < out.len() && def_le_exec(&out[j], &x)
            invariant
                0 <= j <= out.len(),
                forall|k: int| 0 <= k < j ==> def_le(#[trigger] defs_view(out)[k], xv),
            decreases out.len() - j,
        {
            j += 1;
        }
        proof {
            if j < out.len() {
                assert(!def_le(outv[j as int], xv));
                assert(def_order()(outv[j as int], xv) == def_le(outv[j as int], xv));
                assert(def_order()(xv, outv[j as int]) || def_order()(outv[j as int], xv));
                assert(def_le(xv, outv[j as int]));
            }
        }
        out.insert(j, x);
        proof {
            let newv = defs_view(out);
            assert(newv =~= outv.insert(j as int, xv));
            assert(newv.to_multiset() == outv.to_multiset().insert(xv)) by {
                vstd::seq_lib::to_multiset_insert(outv, j as int, xv);
            }
            assert(defs_view(*v).take(i + 1) =~= defs_view(*v).take(i as int).push(xv));
            assert(defs_view(*v).take(i + 1).to_multiset() == defs_view(*v).take(
                i as int).to_multiset().insert(xv));
            assert(sorted_by(newv, def_order())) by {
                assert forall|p: int, q: int| 0 <= p < q < newv.len() implies def_order()(
                    newv[p],
                    newv[q],
                ) by {
                    if q < j {
                        assert(newv[p] == outv[p] && newv[q] == outv[q]);
                    } else if p < j && q == j {
                        assert(newv[p] == outv[p] && newv[q] == xv);
                        assert(def_le(outv[p], xv));
                    } else if p < j && q > j {
                        assert(newv[p] == outv[p] && newv[q] == outv[q - 1]);
                        assert(p < q - 1);
                        assert(def_order()(outv[p], outv[q - 1]));
                    } else if p == j {
                        assert(newv[p] == xv && newv[q] == outv[q - 1]);
                        assert(q - 1 >= j);
                        if q - 1 == j {
                            assert(def_le(xv, outv[j as int]));
                        } else {
                            assert(def_le(xv, outv[j as int]));
                            assert(def_order()(outv[j as int], outv[q - 1]));
                        }
                    } else {
                        assert(newv[p] == outv[p - 1] && newv[q] == outv[q - 1]);
                    }
                }
            }
        }
        i += 1;
    }
    proof {
        assert(defs_view(*v).take(v@.len() as int) =~= defs_view(*v));
        defs_view(*v).lemma_sort_by_ensures(def_order());
        lemma_sorted_unique(defs_view(out), defs_view(*v).sort_by(def_order()), def_order());
    }
    out
}

} // verus!
