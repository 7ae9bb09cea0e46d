//! Preprocessor defines: case-insensitive name matching with case-preserving
//! display, top-down inheritance merging, command-line parsing, and the
//! deterministic name order used for the global define list.
//!
//! A define is a `(name, optional value)` pair. Names match
//! case-insensitively, so a merged map never holds two entries whose names
//! differ only in case; the first-seen spelling of a name is kept for
//! display.

use vstd::prelude::*;
use crate::model::{def_view, defs_view, opt_str_view, str_eq};

verus! {

/// The lowercased form of a character sequence.
pub uninterp spec fn lower_of(s: Seq<char>) -> Seq<char>;

/// The uppercased form of a character sequence.
pub uninterp spec fn upper_of(s: Seq<char>) -> Seq<char>;

/// Relies on `str::to_lowercase`: the result is a function of the characters
/// alone.
#[verifier::external_body]
pub(crate) fn to_lowercase(s: &str) -> (r: String)
    ensures
        r@ == lower_of(s@),
{
    s.to_lowercase()
}

/// Relies on `str::to_uppercase`: the result is a function of the characters
/// alone.
#[verifier::external_body]
pub(crate) fn to_uppercase(s: &str) -> (r: String)
    ensures
        r@ == upper_of(s@),
{
    s.to_uppercase()
}

/// Whether two define names match: comparison goes through the lowercased
/// form.
pub open spec fn key_matches(a: Seq<char>, b: Seq<char>) -> bool {
    lower_of(a) == lower_of(b)
}

/// First position in a define list whose name matches the given name.
pub open spec fn find_def(m: Seq<(Seq<char>, Option<Seq<char>>)>, k: Seq<char>) -> Option<int>
    decreases m.len(),
{
    if m.len() == 0 {
        None
    } else if key_matches(m.first().0, k) {
        Some(0)
    } else {
        match find_def(m.drop_first(), k) {
            Some(i) => Some(i + 1),
            None => None,
        }
    }
}

/// What `find_def` returns: the first matching position, or nothing when no
/// name matches.
pub proof fn lemma_find_def(m: Seq<(Seq<char>, Option<Seq<char>>)>, k: Seq<char>)
    ensures
        match find_def(m, k) {
            Some(i) => 0 <= i < m.len() && key_matches(m[i].0, k) && forall|j: int|
                0 <= j < i ==> !key_matches(#[trigger] m[j].0, k),
            None => forall|j: int| 0 <= j < m.len() ==> !key_matches(#[trigger] m[j].0, k),
        },
    decreases m.len(),
{
    if m.len() == 0 {
    } else if key_matches(m.first().0, k) {
    } else {
        lemma_find_def(m.drop_first(), k);
        let rest = m.drop_first();
        assert(forall|j: int| 0 <= j < rest.len() ==> #[trigger] rest[j] == m[j + 1]);
        if find_def(rest, k) is Some {
            let i = find_def(rest, k)->Some_0;
            assert(key_matches(rest[i].0, k));
            assert(key_matches(m[i + 1].0, k));
            assert(forall|j: int| 0 <= j < i + 1 ==> !key_matches(#[trigger] m[j].0, k)) by {
                assert(forall|j: int| 1 <= j < i + 1 ==> #[trigger] m[j] == rest[j - 1]);
            }
        } else {
            assert(forall|j: int| 0 <= j < m.len() ==> !key_matches(#[trigger] m[j].0, k)) by {
                assert(forall|j: int| 1 <= j < m.len() ==> #[trigger] m[j] == rest[j - 1]);
            }
        }
    }
}

/// One inheritance step: an existing matching name keeps its position and
/// first-seen spelling and takes the new value; a new name is appended.
pub open spec fn insert_def(
    m: Seq<(Seq<char>, Option<Seq<char>>)>,
    d: (Seq<char>, Option<Seq<char>>),
) -> Seq<(Seq<char>, Option<Seq<char>>)> {
    match find_def(m, d.0) {
        Some(i) => m.update(i, (m[i].0, d.1)),
        None => m.push(d),
    }
}

/// Inheritance merge: the parent's defines, then each of the child's applied
/// in order, the child taking precedence on a name collision.
pub open spec fn spec_merge_defines(
    parent: Seq<(Seq<char>, Option<Seq<char>>)>,
    child: Seq<(Seq<char>, Option<Seq<char>>)>,
) -> Seq<(Seq<char>, Option<Seq<char>>)>
    decreases child.len(),
{
    if child.len() == 0 {
        parent
    } else {
        spec_merge_defines(insert_def(parent, child.first()), child.drop_first())
    }
}

/// Folding one more child define onto a merge.
pub proof fn lemma_merge_defines_snoc(
    parent: Seq<(Seq<char>, Option<Seq<char>>)>,
    child: Seq<(Seq<char>, Option<Seq<char>>)>,
    d: (Seq<char>, Option<Seq<char>>),
)
    ensures
        spec_merge_defines(parent, child.push(d)) == insert_def(
            spec_merge_defines(parent, child),
            d,
        ),
    decreases child.len(),
{
    let pushed = child.push(d);
    if child.len() == 0 {
        assert(pushed.first() == d);
        assert(pushed.drop_first() =~= Seq::<(Seq<char>, Option<Seq<char>>)>::empty());
        assert(spec_merge_defines(parent, pushed) == spec_merge_defines(
            insert_def(parent, d),
            Seq::<(Seq<char>, Option<Seq<char>>)>::empty(),
        ));
        assert(spec_merge_defines(
            insert_def(parent, d),
            Seq::<(Seq<char>, Option<Seq<char>>)>::empty(),
        ) == insert_def(parent, d));
        assert(spec_merge_defines(parent, child) == parent);
    } else {
        assert(pushed.first() == child.first());
        assert(pushed.drop_first() =~= child.drop_first().push(d));
        lemma_merge_defines_snoc(insert_def(parent, child.first()), child.drop_first(), d);
        assert(spec_merge_defines(parent, pushed) == spec_merge_defines(
            insert_def(parent, child.first()),
            child.drop_first().push(d),
        ));
        assert(spec_merge_defines(parent, child) == spec_merge_defines(
            insert_def(parent, child.first()),
            child.drop_first(),
        ));
    }
}

/// First matching position of a name in a define list.
pub(crate) fn find_def_index(
    m: &Vec<(String, Option<String>)>,
    k: &str,
) -> (r: Option<usize>)
    ensures
        match r {
            Some(i) => find_def(defs_view(*m), k@) == Some(i as int),
            None => find_def(defs_view(*m), k@) == None::<int>,
        },
{
    proof {
        lemma_find_def(defs_view(*m), k@);
    }
    let k_low = to_lowercase(k);
    let mut i: usize = 0;
    while i < m.len()
        invariant
            0 <= i <= m.len(),
            k_low@ == lower_of(k@),
            forall|j: int| 0 <= j < i ==> !key_matches(#[trigger] defs_view(*m)[j].0, k@),
        decreases m.len() - i,
    {
        let name_low = to_lowercase(m[i].0.as_str());
        if str_eq(name_low.as_str(), k_low.as_str()) {
            proof {
                assert(defs_view(*m)[i as int].0 == m@[i as int].0@);
                assert(key_matches(defs_view(*m)[i as int].0, k@));
            }
            return Some(i);
        }
        proof {
            assert(defs_view(*m)[i as int].0 == m@[i as int].0@);
        }
        i += 1;
    }
    None
}

/// Applies one define to a list, as `insert_def` describes.
pub(crate) fn insert_define(
    m: &mut Vec<(String, Option<String>)>,
    name: String,
    value: Option<String>,
)
    ensures
        defs_view(*final(m)) == insert_def(defs_view(*old(m)), (name@, opt_str_view(value))),
{
    let ghost oldv = defs_view(*m);
    proof {
        lemma_find_def(oldv, name@);
    }
    match find_def_index(m, name.as_str()) {
        Some(i) => {
            let kept = m[i].0.clone();
            m.set(i, (kept, value));
            proof {
                assert(defs_view(*m) =~= oldv.update(i as int, (oldv[i as int].0, opt_str_view(
                    value))));
            }
        },
        None => {
            m.push((name, value));
            proof {
                assert(defs_view(*m) =~= oldv.push((name@, opt_str_view(value))));
            }
        },
    }
}

/// Merges a child's defines into a parent's: additive, child values taking
/// precedence on a (case-insensitive) name collision, first-seen spelling
/// and position kept.
pub fn merge_defines(
    parent: &Vec<(String, Option<String>)>,
    child: &Vec<(String, Option<String>)>,
) -> (r: Vec<(String, Option<String>)>)
    ensures
        defs_view(r) == spec_merge_defines(defs_view(*parent), defs_view(*child)),
{
    let mut out = crate::model::clone_defines(parent);
    let mut i: usize = 0;
    while i < child.len()
        invariant
            0 <= i <= child.len(),
            defs_view(out) == spec_merge_defines(
                defs_view(*parent),
                defs_view(*child).take(i as int),
            ),
        decreases child.len() - i,
    {
        proof {
            assert(defs_view(*child).take(i + 1) =~= defs_view(*child).take(i as int).push(
                defs_view(*child)[i as int]));
            lemma_merge_defines_snoc(
                defs_view(*parent),
                defs_view(*child).take(i as int),
                defs_view(*child)[i as int],
            );
        }
        let name = child[i].0.clone();
        let value = crate::model::clone_opt_string(&child[i].1);
        proof {
            assert((name@, opt_str_view(value)) == defs_view(*child)[i as int]);
        }
        insert_define(&mut out, name, value);
        i += 1;
    }
    proof {
        assert(defs_view(*child).take(child@.len() as int) =~= defs_view(*child));
    }
    out
}

/// Unicode white space, as `char::is_whitespace` reports it.
pub open spec fn spec_is_space(c: char) -> bool {
    c == ' ' || c == '\t' || c == '\n' || c == '\r' || c == '\u{0B}' || c == '\u{0C}'
        || c == '\u{85}' || c == '\u{A0}' || c == '\u{1680}' || c == '\u{2000}' || c == '\u{2001}'
        || c == '\u{2002}' || c == '\u{2003}' || c == '\u{2004}' || c == '\u{2005}'
        || c == '\u{2006}' || c == '\u{2007}' || c == '\u{2008}' || c == '\u{2009}'
        || c == '\u{200A}' || c == '\u{2028}' || c == '\u{2029}' || c == '\u{202F}'
        || c == '\u{205F}' || c == '\u{3000}'
}

/// Unicode white space test.
pub fn is_space(c: char) -> (r: bool)
    ensures
        r == spec_is_space(c),
{
    c == ' ' || c == '\t' || c == '\n' || c == '\r' || c == '\u{0B}' || c == '\u{0C}'
        || c == '\u{85}' || c == '\u{A0}' || c == '\u{1680}' || c == '\u{2000}' || c == '\u{2001}'
        || c == '\u{2002}' || c == '\u{2003}' || c == '\u{2004}' || c == '\u{2005}'
        || c == '\u{2006}' || c == '\u{2007}' || c == '\u{2008}' || c == '\u{2009}'
        || c == '\u{200A}' || c == '\u{2028}' || c == '\u{2029}' || c == '\u{202F}'
        || c == '\u{205F}' || c == '\u{3000}'
}

/// Number of leading white-space characters.
pub open spec fn leading_spaces(s: Seq<char>) -> int
    decreases s.len(),
{
    if s.len() == 0 || !spec_is_space(s.first()) {
        0
    } else {
        1 + leading_spaces(s.drop_first())
    }
}

/// Number of trailing white-space characters.
pub open spec fn trailing_spaces(s: Seq<char>) -> int
    decreases s.len(),
{
    if s.len() == 0 || !spec_is_space(s.last()) {
        0
    } else {
        1 + trailing_spaces(s.drop_last())
    }
}

/// The sequence with leading and trailing white space removed.
pub open spec fn spec_trim(s: Seq<char>) -> Seq<char> {
    let a = leading_spaces(s);
    let b = trailing_spaces(s);
    if a > s.len() - b {
        Seq::empty()
    } else {
        s.subrange(a, s.len() - b)
    }
}

proof fn lemma_leading_spaces(s: Seq<char>, i: int)
    requires
        0 <= i <= s.len(),
        forall|k: int| 0 <= k < i ==> spec_is_space(#[trigger] s[k]),
        i < s.len() ==> !spec_is_space(s[i]),
    ensures
        leading_spaces(s) == i,
    decreases i,
{
    if i == 0 {
    } else {
        assert(spec_is_space(s.first()));
        let rest = s.drop_first();
        assert(forall|k: int| 0 <= k < i - 1 ==> rest[k] == s[k + 1]);
        lemma_leading_spaces(rest, i - 1);
    }
}

proof fn lemma_trailing_spaces(s: Seq<char>, i: int)
    requires
        0 <= i <= s.len(),
        forall|k: int| s.len() - i <= k < s.len() ==> spec_is_space(#[trigger] s[k]),
        i < s.len() ==> !spec_is_space(s[s.len() - i - 1]),
    ensures
        trailing_spaces(s) == i,
    decreases i,
{
    if i == 0 {
    } else {
        assert(spec_is_space(s.last()));
        let rest = s.drop_last();
        lemma_trailing_spaces(rest, i - 1);
    }
}

/// Removes leading and trailing white space from a string.
pub fn trim_str(s: &str) -> (r: String)
    ensures
        r@ == spec_trim(s@),
{
    let n = s.unicode_len();
    let mut a: usize = 0;
    while a < n && is_space(s.get_char(a))
        invariant
            0 <= a <= n,
            n == s@.len(),
            forall|k: int| 0 <= k < a ==> spec_is_space(#[trigger] s@[k]),
        decreases n - a,
    {
        a += 1;
    }
    proof {
        lemma_leading_spaces(s@, a as int);
    }
    if a == n {
        proof {
            lemma_trailing_spaces(s@, n as int);
            assert(spec_trim(s@) =~= Seq::<char>::empty());
        }
        return String::new();
    }
    let mut b: usize = 0;
    while b < n - a - 1 && is_space(s.get_char(n - 1 - b))
        invariant
            0 <= b <= n - a - 1,
            n == s@.len(),
            forall|k: int| n - b <= k < n ==> spec_is_space(#[trigger] s@[k]),
        decreases n - a - b,
    {
        b += 1;
    }
    proof {
        assert(!spec_is_space(s@[n - b - 1])) by {
            if b < n - a - 1 {
            } else {
                assert(n - b - 1 == a);
            }
        }
        lemma_trailing_spaces(s@, b as int);
    }
    let r = s.substring_char(a, n - b);
    proof {
        assert(r@ == spec_trim(s@));
    }
    r.to_owned()
}

/// First position of a character in a sequence, if any.
pub open spec fn first_index_of(s: Seq<char>, c: char) -> Option<int>
    decreases s.len(),
{
    if s.len() == 0 {
        None
    } else if s.first() == c {
        Some(0)
    } else {
        match first_index_of(s.drop_first(), c) {
            Some(i) => Some(i + 1),
            None => None,
        }
    }
}

proof fn lemma_first_index_of(s: Seq<char>, c: char)
    ensures
        match first_index_of(s, c) {
            Some(i) => 0 <= i < s.len() && s[i] == c && forall|j: int| 0 <= j < i ==> s[j] != c,
            None => forall|j: int| 0 <= j < s.len() ==> s[j] != c,
        },
    decreases s.len(),
{
    if s.len() == 0 {
    } else if s.first() == c {
    } else {
        lemma_first_index_of(s.drop_first(), c);
        let rest = s.drop_first();
        assert(forall|j: int| 0 <= j < rest.len() ==> #[trigger] rest[j] == s[j + 1]);
        if first_index_of(rest, c) is Some {
            let i = first_index_of(rest, c)->Some_0;
            assert(rest[i] == c);
            assert(s[i + 1] == c);
            assert(forall|j: int| 0 <= j < i + 1 ==> s[j] != c) by {
                assert(forall|j: int| 1 <= j < i + 1 ==> #[trigger] s[j] == rest[j - 1]);
            }
        } else {
            assert(forall|j: int| 0 <= j < s.len() ==> s[j] != c) by {
                assert(forall|j: int| 1 <= j < s.len() ==> #[trigger] s[j] == rest[j - 1]);
            }
        }
    }
}

/// First position of a character in a string, if any.
pub fn ffind_char(s: &str, c: char) -> (r: Option<usize>)
    ensures
        match r {
            Some(i) => i < s@.len() && first_index_of(s@, c) == Some(i as int),
            None => first_index_of(s@, c) == None::<int>,
        },
{
    proof {
        lemma_first_index_of(s@, c);
    }
    let n = s.unicode_len();
    let mut i: usize = 0;
    while i < n
        invariant
            0 <= i <= n,
            n == s@.len(),
            forall|j: int| 0 <= j < i ==> s@[j] != c,
        decreases n - i,
    {
        if s.get_char(i) == c {
            return Some(i);
        }
        i += 1;
    }
    None
}

/// What one command-line define argument means: the part before the first
/// `=` is the name, what follows it is the value; both are trimmed, and a
/// define without `=` has no value.
pub open spec fn spec_parse_define(s: Seq<char>) -> (Seq<char>, Option<Seq<char>>) {
    match first_index_of(s, '=') {
        None => (spec_trim(s), None),
        Some(i) => (spec_trim(s.subrange(0, i)), Some(spec_trim(s.subrange(i + 1, s.len() as int)))),
    }
}

/// Parses one command-line define argument.
pub fn parse_define(s: &str) -> (r: (String, Option<String>))
    ensures
        def_view(r) == spec_parse_define(s@),
{
    let n = s.unicode_len();
    match ffind_char(s, '=') {
        None => (trim_str(s), None),
        Some(i) => {
            let name_part = s.substring_char(0, i);
            let value_part = s.substring_char(i + 1, n);
            (trim_str(name_part), Some(trim_str(value_part)))
        },
    }
}

/// Parses a list of command-line define arguments, in order.
pub fn parse_defines(args: &Vec<String>) -> (r: Vec<(String, Option<String>)>)
    ensures
        defs_view(r).len() == args@.len(),
        forall|i: int| 0 <= i < args@.len() ==> defs_view(r)[i] == spec_parse_define(
            #[trigger] args@[i]@,
        ),
{
    let mut out: Vec<(String, Option<String>)> = Vec::new();
    let mut i: usize = 0;
    while i < args.len()
        invariant
            0 <= i <= args.len(),
            defs_view(out).len() == i,
            forall|j: int| 0 <= j < i ==> defs_view(out)[j] == spec_parse_define(
                #[trigger] args@[j]@,
            ),
        decreases args.len() - i,
    {
        let d = parse_define(args[i].as_str());
        out.push(d);
        i += 1;
    }
    out
}

} // verus!
