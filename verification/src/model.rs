//! Data model: target specifications, source files and source groups.
//!
//! A `SourceGroup` is one package's (or scope's) contribution: its files, in
//! an order that is semantically load-bearing for HDL tools, together with
//! include directories, preprocessor defines and a target applicability rule.
//! Files may recursively be nested sub-groups.
//!
//! Each executable type has a ghost mirror (`GroupV`, `FileV`, ...) over
//! `Seq`/`Option` values; all contracts in this crate speak of those mirrors.

use vstd::prelude::*;

verus! {

/// Applicability of a group: to every target, or only to an explicit set of
/// target names.
#[derive(Debug, PartialEq)]
pub enum TargetSpec {
    Wildcard,
    Targets(Vec<String>),
}

/// Ghost mirror of `TargetSpec`.
#[verifier::ext_equal]
pub ghost enum TargetSpecV {
    Wildcard,
    Targets(Seq<Seq<char>>),
}

/// A requested set of target names (case-sensitive, first occurrence kept).
pub struct TargetSet {
    pub names: Vec<String>,
}

/// One entry of a source group: a plain file path, or a nested sub-group.
#[derive(Debug, PartialEq)]
pub enum SourceFile {
    File(String),
    Group(SourceGroup),
}

/// One package's or scope's contribution to the source tree.
#[derive(Debug, PartialEq)]
pub struct SourceGroup {
    /// Identifier of the owning package; `None` for the anonymous top scope.
    pub package: Option<String>,
    /// Whether the group stands outside the normal target-propagation rule.
    pub independent: bool,
    /// Target applicability of this group.
    pub target: TargetSpec,
    /// Directories visible to this group.
    pub include_dirs: Vec<String>,
    /// Directories re-exported to dependents.
    pub export_incdirs: Vec<String>,
    /// Preprocessor defines: name (original case) and optional value.
    pub defines: Vec<(String, Option<String>)>,
    /// The ordered file sequence; order must never be changed, only split
    /// or filtered.
    pub files: Vec<SourceFile>,
    /// Package identifiers this group depends on.
    pub dependencies: Vec<String>,
    /// Optional informational version tag.
    pub version: Option<String>,
}

/// Ghost mirror of `SourceFile`.
#[verifier::ext_equal]
pub ghost enum FileV {
    File(Seq<char>),
    Group(GroupV),
}

/// Ghost mirror of `SourceGroup`.
#[verifier::ext_equal]
pub ghost struct GroupV {
    pub package: Option<Seq<char>>,
    pub independent: bool,
    pub target: TargetSpecV,
    pub include_dirs: Seq<Seq<char>>,
    pub export_incdirs: Seq<Seq<char>>,
    pub defines: Seq<(Seq<char>, Option<Seq<char>>)>,
    pub files: Seq<FileV>,
    pub dependencies: Seq<Seq<char>>,
    pub version: Option<Seq<char>>,
}

/// View of a vector of strings as a sequence of character sequences.
pub open spec fn strs_view(v: Vec<String>) -> Seq<Seq<char>> {
    v@.map_values(|s: String| s@)
}

/// View of an optional string.
pub open spec fn opt_str_view(o: Option<String>) -> Option<Seq<char>> {
    match o {
        Some(s) => Some(s@),
        None => None,
    }
}

/// View of one define pair.
pub open spec fn def_view(d: (String, Option<String>)) -> (Seq<char>, Option<Seq<char>>) {
    (d.0@, opt_str_view(d.1))
}

/// View of a vector of define pairs.
pub open spec fn defs_view(v: Vec<(String, Option<String>)>) -> Seq<(Seq<char>, Option<Seq<char>>)> {
    v@.map_values(|d: (String, Option<String>)| def_view(d))
}

impl TargetSpec {
    pub open spec fn view(self) -> TargetSpecV {
        match self {
            TargetSpec::Wildcard => TargetSpecV::Wildcard,
            TargetSpec::Targets(v) => TargetSpecV::Targets(strs_view(v)),
        }
    }
}

impl TargetSet {
    pub open spec fn view(self) -> Seq<Seq<char>> {
        strs_view(self.names)
    }

    /// The set holds each name at most once.
    pub open spec fn wf(self) -> bool {
        forall|i: int, j: int|
            0 <= i < j < self.view().len() ==> self.view()[i] != self.view()[j]
    }
}

impl SourceFile {
    pub open spec fn view(self) -> FileV
        decreases self,
    {
        match self {
            SourceFile::File(p) => FileV::File(p@),
            SourceFile::Group(g) => FileV::Group(g.view()),
        }
    }
}

/// View of a sequence of source files.
pub open spec fn files_seq_view(files: Seq<SourceFile>) -> Seq<FileV>
    decreases files,
{
    if files.len() == 0 {
        Seq::empty()
    } else {
        files_seq_view(files.drop_last()).push(files.last().view())
    }
}

/// View of a vector of source files.
pub open spec fn files_vec_view(files: Vec<SourceFile>) -> Seq<FileV>
    decreases files,
{
    files_seq_view(files@)
}

impl SourceGroup {
    pub open spec fn view(self) -> GroupV
        decreases self,
    {
        GroupV {
            package: opt_str_view(self.package),
            independent: self.independent,
            target: self.target.view(),
            include_dirs: strs_view(self.include_dirs),
            export_incdirs: strs_view(self.export_incdirs),
            defines: defs_view(self.defines),
            files: files_vec_view(self.files),
            dependencies: strs_view(self.dependencies),
            version: opt_str_view(self.version),
        }
    }
}

impl GroupV {
    /// The include directories a group contributes: its own, then the ones it
    /// re-exports.
    pub open spec fn incdirs(self) -> Seq<Seq<char>> {
        self.include_dirs + self.export_incdirs
    }
}

/// Whether a target rule applies under a requested set of target names:
/// a wildcard always applies, an explicit set applies when it intersects the
/// requested names.
pub open spec fn spec_applies(t: TargetSpecV, requested: Seq<Seq<char>>) -> bool {
    match t {
        TargetSpecV::Wildcard => true,
        TargetSpecV::Targets(names) => exists|i: int|
            0 <= i < names.len() && #[trigger] requested.contains(names[i]),
    }
}

/// Compares two string slices character by character.
pub fn str_eq(a: &str, b: &str) -> (r: bool)
    ensures
        r == (a@ == b@),
{
    let alen = a.unicode_len();
    let blen = b.unicode_len();
    if alen != blen {
        assert(a@ != b@) by {
            assert(a@.len() != b@.len());
        }
        return false;
    }
    let mut i: usize = 0;
    while i < alen
        invariant
            alen == a@.len(),
            alen == b@.len(),
            0 <= i <= alen,
            forall|k: int| 0 <= k < i ==> a@[k] == b@[k],
        decreases alen - i,
    {
        if a.get_char(i) != b.get_char(i) {
            assert(a@ != b@);
            return false;
        }
        i += 1;
    }
    proof {
        assert(a@ =~= b@);
    }
    true
}

/// Whether a vector of strings holds a string with the given view.
pub fn strs_contain(v: &Vec<String>, x: &str) -> (r: bool)
    ensures
        r == strs_view(*v).contains(x@),
{
    let mut i: usize = 0;
    while i < v.len()
        invariant
            0 <= i <= v.len(),
            forall|k: int| 0 <= k < i ==> strs_view(*v)[k] != x@,
        decreases v.len() - i,
    {
        if str_eq(v[i].as_str(), x) {
            assert(strs_view(*v)[i as int] == x@);
            return true;
        }
        i += 1;
    }
    assert(forall|k: int| 0 <= k < strs_view(*v).len() ==> strs_view(*v)[k] != x@);
    false
}

impl TargetSpec {
    /// Whether this rule applies under the requested target set.
    pub fn applies_to(&self, requested: &TargetSet) -> (r: bool)
        ensures
            r == spec_applies(self.view(), requested.view()),
    {
        match self {
            TargetSpec::Wildcard => true,
            TargetSpec::Targets(names) => {
                let mut i: usize = 0;
                while i < names.len()
                    invariant
                        0 <= i <= names.len(),
                        forall|k: int| 0 <= k < i
                            ==> !requested.view().contains(strs_view(*names)[k]),
                    decreases names.len() - i,
                {
                    if strs_contain(&requested.names, names[i].as_str()) {
                        proof {
                            let nv = strs_view(*names);
                            assert(self.view() == TargetSpecV::Targets(nv));
                            assert(nv[i as int] == names@[i as int]@);
                            assert(exists|k: int|
                                0 <= k < nv.len() && requested.view().contains(nv[k])) by {
                                assert((i as int) < nv.len() && requested.view().contains(
                                    nv[i as int]));
                            }
                            let t = TargetSpecV::Targets(nv);
                            assert(t->Targets_0 == nv);
                            assert(spec_applies(t, requested.view()));
                            assert(spec_applies(self.view(), requested.view()));
                        }
                        return true;
                    }
                    i += 1;
                }
                false
            },
        }
    }
}

impl TargetSet {
    /// Builds a target set from a list of names, keeping the first occurrence
    /// of each name and dropping later duplicates.
    pub fn new(names: Vec<String>) -> (r: TargetSet)
        ensures
            r.wf(),
            r.view() == dedup_first(strs_view(names)),
    {
        let mut kept: Vec<String> = Vec::new();
        let mut i: usize = 0;
        while i < names.len()
            invariant
                0 <= i <= names.len(),
                strs_view(kept) == dedup_first(strs_view(names).take(i as int)),
            decreases names.len() - i,
        {
            proof {
                assert(strs_view(names).take(i + 1) =~= strs_view(names).take(i as int).push(
                    names@[i as int]@));
                lemma_dedup_first_step(strs_view(names).take(i as int), names@[i as int]@);
            }
            if !strs_contain(&kept, names[i].as_str()) {
                let ghost prev = strs_view(kept);
                kept.push(names[i].clone());
                proof {
                    assert(strs_view(kept) =~= prev.push(names@[i as int]@));
                }
            }
            i += 1;
        }
        proof {
            assert(strs_view(names).take(names@.len() as int) =~= strs_view(names));
            lemma_dedup_first_wf(strs_view(names));
        }
        TargetSet { names: kept }
    }
}

/// `files_seq_view` maps each element to its view.
pub proof fn lemma_files_seq_view(files: Seq<SourceFile>)
    ensures
        files_seq_view(files).len() == files.len(),
        forall|i: int| 0 <= i < files.len() ==> #[trigger] files_seq_view(files)[i]
            == files[i].view(),
    decreases files,
{
    if files.len() > 0 {
        lemma_files_seq_view(files.drop_last());
    }
}

/// First-occurrence deduplication of a sequence: an element is kept at its
/// first position, later equal elements are dropped.
pub open spec fn dedup_first(s: Seq<Seq<char>>) -> Seq<Seq<char>>
    decreases s.len(),
{
    if s.len() == 0 {
        Seq::empty()
    } else {
        let front = dedup_first(s.drop_last());
        if front.contains(s.last()) {
            front
        } else {
            front.push(s.last())
        }
    }
}

/// One unfolding step of `dedup_first` on a pushed element.
pub proof fn lemma_dedup_first_step(s: Seq<Seq<char>>, x: Seq<char>)
    ensures
        dedup_first(s.push(x)) == if dedup_first(s).contains(x) {
            dedup_first(s)
        } else {
            dedup_first(s).push(x)
        },
{
    assert(s.push(x).drop_last() =~= s);
    assert(s.push(x).last() == x);
}

/// `dedup_first` keeps exactly the elements of its input, each once.
pub proof fn lemma_dedup_first_wf(s: Seq<Seq<char>>)
    ensures
        forall|i: int, j: int|
            0 <= i < j < dedup_first(s).len() ==> dedup_first(s)[i] != dedup_first(s)[j],
        forall|x: Seq<char>| dedup_first(s).contains(x) == s.contains(x),
    decreases s.len(),
{
    if s.len() == 0 {
    } else {
        lemma_dedup_first_wf(s.drop_last());
        let front = dedup_first(s.drop_last());
        let whole = dedup_first(s);
        assert forall|x: Seq<char>| whole.contains(x) == s.contains(x) by {
            if s.contains(x) {
                let i = choose|i: int| 0 <= i < s.len() && s[i] == x;
                if i < s.len() - 1 {
                    assert(s.drop_last()[i] == x);
                    assert(s.drop_last().contains(x));
                    if !front.contains(s.last()) {
                        assert(whole == front.push(s.last()));
                        assert(front.contains(x));
                        let j = choose|j: int| 0 <= j < front.len() && front[j] == x;
                        assert(whole[j] == x);
                    }
                } else {
                    if front.contains(s.last()) {
                        assert(whole.contains(x));
                    } else {
                        assert(whole == front.push(s.last()));
                        assert(whole[whole.len() - 1] == x);
                    }
                }
            }
            if whole.contains(x) {
                if front.contains(x) {
                    let j = choose|j: int| 0 <= j < front.len() && front[j] == x;
                    assert(s.drop_last().contains(x));
                    let i = choose|i: int| 0 <= i < s.drop_last().len() && s.drop_last()[i] == x;
                    assert(s[i] == x);
                } else {
                    assert(x == s.last());
                    assert(s[s.len() - 1] == x);
                }
            }
        }
    }
}

/// Copies a vector of strings.
pub fn clone_string_vec(v: &Vec<String>) -> (r: Vec<String>)
    ensures
        r@ == v@,
{
    let mut out: Vec<String> = Vec::new();
    let mut i: usize = 0;
    while i < v.len()
        invariant
            0 <= i <= v.len(),
            out@ == v@.take(i as int),
        decreases v.len() - i,
    {
        out.push(v[i].clone());
        proof {
            assert(out@ =~= v@.take(i + 1));
        }
        i += 1;
    }
    proof {
        assert(v@.take(v@.len() as int) =~= v@);
    }
    out
}

/// Copies an optional string.
pub fn clone_opt_string(o: &Option<String>) -> (r: Option<String>)
    ensures
        r == *o,
{
    match o {
        Some(s) => Some(s.clone()),
        None => None,
    }
}

/// Copies a vector of define pairs.
pub fn clone_defines(v: &Vec<(String, Option<String>)>) -> (r: Vec<(String, Option<String>)>)
    ensures
        r@ == v@,
{
    let mut out: Vec<(String, Option<String>)> = Vec::new();
    let mut i: usize = 0;
    while i < v.len()
        invariant
            0 <= i <= v.len(),
            out@ == v@.take(i as int),
        decreases v.len() - i,
    {
        let name = v[i].0.clone();
        let value = clone_opt_string(&v[i].1);
        out.push((name, value));
        proof {
            assert((name, value) == v@[i as int]);
            assert(out@ =~= v@.take(i + 1));
        }
        i += 1;
    }
    proof {
        assert(v@.take(v@.len() as int) =~= v@);
    }
    out
}

/// Copies a target rule.
pub fn clone_target(t: &TargetSpec) -> (r: TargetSpec)
    ensures
        r.view() == t.view(),
{
    match t {
        TargetSpec::Wildcard => TargetSpec::Wildcard,
        TargetSpec::Targets(names) => TargetSpec::Targets(clone_string_vec(names)),
    }
}

} // verus!
