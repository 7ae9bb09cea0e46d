//! Path relativization: rewriting absolute paths under the session root to
//! a root-relative form using the fixed `$ROOT` placeholder. Paths outside
//! the root are left absolute.

use vstd::prelude::*;

verus! {

/// Whether a path lies under a root, component-wise: the root is a prefix
/// and the cut falls on a component boundary.
pub open spec fn spec_path_starts_with(p: Seq<char>, root: Seq<char>) -> bool {
    root.len() <= p.len() && p.take(root.len() as int) == root && (p.len() == root.len() || p[
        root.len() as int
    ] == '/' || (root.len() > 0 && root.last() == '/'))
}

/// The path with the root replaced by the `$ROOT` placeholder when it lies
/// under the root, and unchanged otherwise.
pub open spec fn spec_relativize(p: Seq<char>, root: Seq<char>) -> Seq<char> {
    if spec_path_starts_with(p, root) {
        let rest0 = p.skip(root.len() as int);
        let rest = if rest0.len() > 0 && rest0.first() == '/' {
            rest0.drop_first()
        } else {
            rest0
        };
        "$ROOT/"@ + rest
    } else {
        p
    }
}

/// Whether a path lies under a root, component-wise.
pub fn path_starts_with(p: &str, root: &str) -> (r: bool)
    ensures
        r == spec_path_starts_with(p@, root@),
{
    let pn = p.unicode_len();
    let rn = root.unicode_len();
    if rn > pn {
        return false;
    }
    let mut i: usize = 0;
    while i < rn
        invariant
            0 <= i <= rn,
            rn <= pn,
            pn == p@.len(),
            rn == root@.len(),
            forall|k: int| 0 <= k < i ==> p@[k] == root@[k],
        decreases rn - i,
    {
        if p.get_char(i) != root.get_char(i) {
            proof {
                assert(p@.take(rn as int)[i as int] != root@[i as int]);
            }
            return false;
        }
        i += 1;
    }
    proof {
        assert(p@.take(rn as int) =~= root@);
    }
    if pn == rn {
        return true;
    }
    if p.get_char(rn) == '/' {
        return true;
    }
    if rn > 0 && root.get_char(rn - 1) == '/' {
        return true;
    }
    false
}

/// Rewrites a path under the root to the `$ROOT`-relative form; a path
/// outside the root is returned unchanged.
pub fn relativize_path(path: &str, root: &str) -> (r: String)
    ensures
        r@ == spec_relativize(path@, root@),
{
    let pn = path.unicode_len();
    let rn = root.unicode_len();
    if path_starts_with(path, root) {
        let mut start = rn;
        if start < pn && path.get_char(start) == '/' {
            start = start + 1;
        }
        let rest = path.substring_char(start, pn);
        let mut out = "$ROOT/".to_owned();
        out.append(rest);
        proof {
            let rest0 = path@.skip(rn as int);
            if rn < pn && path@[rn as int] == '/' {
                assert(rest0.first() == path@[rn as int]);
                assert(rest0.drop_first() =~= path@.subrange(rn + 1, pn as int));
            } else {
                assert(rest0 =~= path@.subrange(rn as int, pn as int));
            }
        }
        out
    } else {
        path.to_owned()
    }
}

} // verus!
