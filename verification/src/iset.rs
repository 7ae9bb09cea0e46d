//! Trusted interface to `indexmap::IndexSet` over strings: an
//! insertion-ordered set, used for the deduplicating ordered aggregates
//! (include directories, files, per-language file lists).

use vstd::prelude::*;
use crate::model::{dedup_first, lemma_dedup_first_step, strs_view};

verus! {

#[verifier::external_type_specification]
#[verifier::external_body]
#[verifier::reject_recursive_types(T)]
#[verifier::reject_recursive_types(S)]
pub struct ExIndexSet<T, S>(indexmap::IndexSet<T, S>);

/// The values an index set holds, in insertion order.
pub uninterp spec fn iset_elems(s: indexmap::IndexSet<String>) -> Seq<Seq<char>>;

/// Relies on `IndexSet::new`: a new set is empty.
#[verifier::external_body]
pub(crate) fn iset_new() -> (r: indexmap::IndexSet<String>)
    ensures
        iset_elems(r) == Seq::<Seq<char>>::empty(),
{
    indexmap::IndexSet::new()
}

/// Relies on `IndexSet::insert`: a value already present leaves the set
/// unchanged, a new value is appended at the end; the result says whether
/// the value was new.
#[verifier::external_body]
pub(crate) fn iset_insert(s: &mut indexmap::IndexSet<String>, v: String) -> (r: bool)
    ensures
        r == !iset_elems(*old(s)).contains(v@),
        iset_elems(*final(s)) == if iset_elems(*old(s)).contains(v@) {
            iset_elems(*old(s))
        } else {
            iset_elems(*old(s)).push(v@)
        },
{
    s.insert(v)
}

/// Relies on `IndexSet` iteration: values come out in insertion order.
#[verifier::external_body]
pub(crate) fn iset_to_vec(s: &indexmap::IndexSet<String>) -> (r: Vec<String>)
    ensures
        strs_view(r) == iset_elems(*s),
{
    s.iter().cloned().collect()
}

/// First-occurrence deduplication of a string list, keeping order, through
/// an insertion-ordered set.
pub fn dedup_strs(items: &Vec<String>) -> (r: Vec<String>)
    ensures
        strs_view(r) == dedup_first(strs_view(*items)),
{
    let mut set = iset_new();
    let mut out: Vec<String> = Vec::new();
    let mut i: usize = 0;
    proof {
        assert(strs_view(*items).take(0) =~= Seq::<Seq<char>>::empty());
        assert(strs_view(out) =~= Seq::<Seq<char>>::empty());
    }
    while i < items.len()
        invariant
            0 <= i <= items.len(),
            iset_elems(set) == dedup_first(strs_view(*items).take(i as int)),
            strs_view(out) == iset_elems(set),
        decreases items.len() - i,
    {
        let ghost prev = iset_elems(set);
        proof {
            assert(strs_view(*items).take(i + 1) =~= strs_view(*items).take(i as int).push(
                strs_view(*items)[i as int]));
            lemma_dedup_first_step(strs_view(*items).take(i as int), strs_view(*items)[i as int]);
        }
        let ghost prevout = strs_view(out);
        if iset_insert(&mut set, items[i].clone()) {
            out.push(items[i].clone());
            proof {
                assert(strs_view(out) =~= prevout.push(strs_view(*items)[i as int]));
            }
        }
        i += 1;
    }
    proof {
        assert(strs_view(*items).take(items@.len() as int) =~= strs_view(*items));
    }
    out
}

} // verus!
