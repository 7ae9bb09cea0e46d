//! Package filter: prunes the source tree to an explicit package allow/deny
//! list, optionally without the transitive dependency closure.
//!
//! Package names are matched in lowercase. The resolved keep-set is the
//! allow-set plus — unless dependencies are excluded — the packages reachable
//! from it through the dependency edges of the tree; an empty allow-set
//! keeps every package. The deny-set subtracts from that regardless. Groups
//! with an absent or empty package identifier (the top-level scope) are
//! always kept; a pruned group is dropped together with its subtree.

use vstd::prelude::*;
use crate::model::{
    FileV, GroupV, SourceFile, SourceGroup, clone_defines, clone_opt_string, clone_string_vec,
    clone_target, dedup_first, files_seq_view, lemma_files_seq_view, strs_contain,
    strs_view,
};
use crate::defines::{lower_of, to_lowercase};
use crate::iset::dedup_strs;

verus! {

/// Lowercases and first-occurrence-deduplicates a list of package names.
pub fn get_package_strings(packages: &Vec<String>) -> (r: Vec<String>)
    ensures
        strs_view(r) == dedup_first(strs_view(*packages).map_values(|s: Seq<char>| lower_of(s))),
{
    let mut lowered: Vec<String> = Vec::new();
    let mut i: usize = 0;
    proof {
        assert(strs_view(lowered) =~= strs_view(*packages).map_values(
            |s: Seq<char>| lower_of(s)).take(0));
    }
    while i < packages.len()
        invariant
            0 <= i <= packages.len(),
            strs_view(lowered) == strs_view(*packages).map_values(
                |s: Seq<char>| lower_of(s),
            ).take(i as int),
        decreases packages.len() - i,
    {
        let ghost prev = strs_view(lowered);
        lowered.push(to_lowercase(packages[i].as_str()));
        proof {
            assert(strs_view(lowered) =~= prev.push(lower_of(strs_view(*packages)[i as int])));
            assert(strs_view(*packages).map_values(|s: Seq<char>| lower_of(s)).take(i + 1)
                =~= strs_view(*packages).map_values(|s: Seq<char>| lower_of(s)).take(
                i as int).push(lower_of(strs_view(*packages)[i as int])));
        }
        i += 1;
    }
    proof {
        let mapped = strs_view(*packages).map_values(|s: Seq<char>| lower_of(s));
        assert(mapped.take(mapped.len() as int) =~= mapped);
    }
    dedup_strs(&lowered)
}

/// One dependency edge: a package name and its dependencies, lowercased.
pub open spec fn spec_own_edges(g: GroupV) -> Seq<(Seq<char>, Seq<Seq<char>>)> {
    match g.package {
        Some(p) => seq![
            (lower_of(p), g.dependencies.map_values(|d: Seq<char>| lower_of(d))),
        ],
        None => Seq::empty(),
    }
}

/// Dependency edges of a tree, in a pre-order walk.
pub open spec fn spec_edges(g: GroupV) -> Seq<(Seq<char>, Seq<Seq<char>>)>
    decreases g,
{
    spec_own_edges(g) + spec_edges_seq(g.files)
}

/// Dependency edges contributed by a file sequence.
pub open spec fn spec_edges_seq(files: Seq<FileV>) -> Seq<(Seq<char>, Seq<Seq<char>>)>
    decreases files,
{
    if files.len() == 0 {
        Seq::empty()
    } else {
        let rest = spec_edges_seq(files.drop_first());
        match files.first() {
            FileV::File(_) => rest,
            FileV::Group(sub) => spec_edges(sub) + rest,
        }
    }
}

/// View of an edge vector.
pub open spec fn edges_view(v: Vec<(String, Vec<String>)>) -> Seq<(Seq<char>, Seq<Seq<char>>)> {
    v@.map_values(|e: (String, Vec<String>)| (e.0@, strs_view(e.1)))
}

/// Appends the members of `deps` not yet present, in order.
pub open spec fn append_new(set: Seq<Seq<char>>, deps: Seq<Seq<char>>) -> Seq<Seq<char>>
    decreases deps.len(),
{
    if deps.len() == 0 {
        set
    } else {
        let set2 = if set.contains(deps.first()) {
            set
        } else {
            set.push(deps.first())
        };
        append_new(set2, deps.drop_first())
    }
}

/// One closure round: adds the dependencies of every member package.
pub open spec fn closure_step(
    edges: Seq<(Seq<char>, Seq<Seq<char>>)>,
    set: Seq<Seq<char>>,
) -> Seq<Seq<char>>
    decreases edges.len(),
{
    if edges.len() == 0 {
        set
    } else {
        let e = edges.first();
        let set2 = if set.contains(e.0) {
            append_new(set, e.1)
        } else {
            set
        };
        closure_step(edges.drop_first(), set2)
    }
}

/// The set after a number of expansion rounds; the keep-set runs one round
/// per dependency edge.
pub open spec fn closure_rounds(
    edges: Seq<(Seq<char>, Seq<Seq<char>>)>,
    set: Seq<Seq<char>>,
    n: nat,
) -> Seq<Seq<char>>
    decreases n,
{
    if n == 0 {
        set
    } else {
        closure_rounds(edges, closure_step(edges, set), (n - 1) as nat)
    }
}

/// The resolved keep-set: every package when the allow-set is empty; the
/// allow-set alone when dependencies are excluded; otherwise the allow-set
/// with its transitive dependency closure.
pub open spec fn spec_keep_set(
    edges: Seq<(Seq<char>, Seq<Seq<char>>)>,
    allow: Seq<Seq<char>>,
    no_deps: bool,
) -> Seq<Seq<char>> {
    if allow.len() == 0 {
        edges.map_values(|e: (Seq<char>, Seq<Seq<char>>)| e.0)
    } else if no_deps {
        allow
    } else {
        closure_rounds(edges, allow, edges.len())
    }
}

proof fn lemma_push_keeps(set: Seq<Seq<char>>, y: Seq<char>, x: Seq<char>)
    requires
        set.contains(x),
    ensures
        set.push(y).contains(x),
{
    let i = choose|i: int| 0 <= i < set.len() && set[i] == x;
    assert(set.push(y)[i] == x);
}

proof fn lemma_append_new_keeps(set: Seq<Seq<char>>, deps: Seq<Seq<char>>, x: Seq<char>)
    requires
        set.contains(x),
    ensures
        append_new(set, deps).contains(x),
    decreases deps.len(),
{
    if deps.len() > 0 {
        if set.contains(deps.first()) {
            lemma_append_new_keeps(set, deps.drop_first(), x);
        } else {
            lemma_push_keeps(set, deps.first(), x);
            lemma_append_new_keeps(set.push(deps.first()), deps.drop_first(), x);
        }
    }
}

proof fn lemma_closure_step_keeps(
    edges: Seq<(Seq<char>, Seq<Seq<char>>)>,
    set: Seq<Seq<char>>,
    x: Seq<char>,
)
    requires
        set.contains(x),
    ensures
        closure_step(edges, set).contains(x),
    decreases edges.len(),
{
    if edges.len() > 0 {
        let e = edges.first();
        if set.contains(e.0) {
            lemma_append_new_keeps(set, e.1, x);
            lemma_closure_step_keeps(edges.drop_first(), append_new(set, e.1), x);
        } else {
            lemma_closure_step_keeps(edges.drop_first(), set, x);
        }
    }
}

proof fn lemma_closure_rounds_keeps(
    edges: Seq<(Seq<char>, Seq<Seq<char>>)>,
    set: Seq<Seq<char>>,
    n: nat,
    x: Seq<char>,
)
    requires
        set.contains(x),
    ensures
        closure_rounds(edges, set, n).contains(x),
    decreases n,
{
    if n > 0 {
        lemma_closure_step_keeps(edges, set, x);
        lemma_closure_rounds_keeps(edges, closure_step(edges, set), (n - 1) as nat, x);
    }
}

/// The allow-set survives dependency resolution: every allowed package is
/// in the resolved keep-set, with or without the dependency closure.
pub proof fn lemma_keep_set_contains_allow(
    edges: Seq<(Seq<char>, Seq<Seq<char>>)>,
    allow: Seq<Seq<char>>,
    no_deps: bool,
    x: Seq<char>,
)
    requires
        allow.contains(x),
    ensures
        spec_keep_set(edges, allow, no_deps).contains(x),
{
    if allow.len() > 0 && !no_deps {
        lemma_closure_rounds_keeps(edges, allow, edges.len(), x);
    }
}

/// Appends the dependencies not yet present to a vector.
fn append_new_exec(set: &mut Vec<String>, deps: &Vec<String>)
    ensures
        strs_view(*final(set)) == append_new(strs_view(*old(set)), strs_view(*deps)),
{
    let mut i: usize = 0;
    proof {
        assert(strs_view(*deps).skip(0) =~= strs_view(*deps));
    }
    while i < deps.len()
        invariant
            0 <= i <= deps.len(),
            append_new(strs_view(*old(set)), strs_view(*deps)) == append_new(
                strs_view(*set),
                strs_view(*deps).skip(i as int),
            ),
        decreases deps.len() - i,
    {
        let ghost rem = strs_view(*deps).skip(i as int);
        proof {
            assert(rem.first() == strs_view(*deps)[i as int]);
            assert(rem.drop_first() =~= strs_view(*deps).skip(i + 1));
        }
        let ghost prev = strs_view(*set);
        if !strs_contain(set, deps[i].as_str()) {
            set.push(deps[i].clone());
            proof {
                assert(strs_view(*set) =~= prev.push(rem.first()));
            }
        }
        i += 1;
    }
    proof {
        assert(strs_view(*deps).skip(deps@.len() as int) =~= Seq::<Seq<char>>::empty());
    }
}

/// Computes the keep-set of packages for the given edges and options.
pub fn resolve_keep_set(
    edges: &Vec<(String, Vec<String>)>,
    allow: &Vec<String>,
    no_deps: bool,
) -> (r: Vec<String>)
    ensures
        strs_view(r) == spec_keep_set(edges_view(*edges), strs_view(*allow), no_deps),
{
    if allow.len() == 0 {
        let mut names: Vec<String> = Vec::new();
        let mut i: usize = 0;
        proof {
            assert(strs_view(names) =~= edges_view(*edges).map_values(
                |e: (Seq<char>, Seq<Seq<char>>)| e.0).take(0));
        }
        while i < edges.len()
            invariant
                0 <= i <= edges.len(),
                strs_view(names) == edges_view(*edges).map_values(
                    |e: (Seq<char>, Seq<Seq<char>>)| e.0,
                ).take(i as int),
            decreases edges.len() - i,
        {
            let ghost prev = strs_view(names);
            names.push(edges[i].0.clone());
            proof {
                let mapped = edges_view(*edges).map_values(
                    |e: (Seq<char>, Seq<Seq<char>>)| e.0,
                );
                assert(strs_view(names) =~= prev.push(mapped[i as int]));
                assert(mapped.take(i + 1) =~= mapped.take(i as int).push(mapped[i as int]));
            }
            i += 1;
        }
        proof {
            let mapped = edges_view(*edges).map_values(|e: (Seq<char>, Seq<Seq<char>>)| e.0);
            assert(mapped.take(mapped.len() as int) =~= mapped);
        }
        return names;
    }
    let mut set = clone_string_vec(allow);
    if no_deps {
        return set;
    }
    let rounds = edges.len();
    let mut n: usize = 0;
    while n < rounds
        invariant
            0 <= n <= rounds,
            rounds == edges@.len(),
            closure_rounds(edges_view(*edges), strs_view(*allow), rounds as nat)
                == closure_rounds(edges_view(*edges), strs_view(set), (rounds - n) as nat),
        decreases rounds - n,
    {
        let ghost before = strs_view(set);
        let mut j: usize = 0;
        proof {
            assert(edges_view(*edges).skip(0) =~= edges_view(*edges));
        }
        while j < edges.len()
            invariant
                0 <= j <= edges.len(),
                closure_step(edges_view(*edges), before) == closure_step(
                    edges_view(*edges).skip(j as int),
                    strs_view(set),
                ),
            decreases edges.len() - j,
        {
            let ghost rem = edges_view(*edges).skip(j as int);
            proof {
                assert(rem.first() == edges_view(*edges)[j as int]);
                assert(rem.drop_first() =~= edges_view(*edges).skip(j + 1));
            }
            if strs_contain(&set, edges[j].0.as_str()) {
                append_new_exec(&mut set, &edges[j].1);
            }
            j += 1;
        }
        proof {
            assert(edges_view(*edges).skip(edges@.len() as int) =~= Seq::<(
                Seq<char>,
                Seq<Seq<char>>,
            )>::empty());
        }
        n += 1;
    }
    set
}

/// Whether a group's package identifier lets it survive the package filter:
/// an absent or empty identifier is always kept, a named package must be in
/// the keep-set and not denied.
pub open spec fn spec_pkg_kept(
    package: Option<Seq<char>>,
    keep: Seq<Seq<char>>,
    deny: Seq<Seq<char>>,
) -> bool {
    match package {
        None => true,
        Some(p) => p.len() == 0 || (keep.contains(lower_of(p)) && !deny.contains(lower_of(p))),
    }
}

/// Files surviving the package filter.
pub open spec fn filter_files_packages(
    files: Seq<FileV>,
    keep: Seq<Seq<char>>,
    deny: Seq<Seq<char>>,
) -> Seq<FileV>
    decreases files,
{
    if files.len() == 0 {
        Seq::empty()
    } else {
        let front = filter_files_packages(files.drop_last(), keep, deny);
        match files.last() {
            FileV::File(p) => front.push(FileV::File(p)),
            FileV::Group(sub) => match spec_filter_packages(sub, keep, deny) {
                Some(sub2) => front.push(FileV::Group(sub2)),
                None => front,
            },
        }
    }
}

/// The package filter on one group.
pub open spec fn spec_filter_packages(
    g: GroupV,
    keep: Seq<Seq<char>>,
    deny: Seq<Seq<char>>,
) -> Option<GroupV>
    decreases g,
{
    if !spec_pkg_kept(g.package, keep, deny) {
        None
    } else {
        Some(GroupV { files: filter_files_packages(g.files, keep, deny), ..g })
    }
}

impl SourceGroup {
    /// Collects the dependency edges of this tree, lowercased, appending to
    /// `out`.
    pub fn collect_edges(&self, out: &mut Vec<(String, Vec<String>)>)
        ensures
            edges_view(*final(out)) == edges_view(*old(out)) + spec_edges(self.view()),
        decreases *self,
    {
        let ghost gv = self.view();
        let ghost base = edges_view(*out);
        match &self.package {
            Some(p) => {
                let name = to_lowercase(p.as_str());
                let mut deps: Vec<String> = Vec::new();
                let mut i: usize = 0;
                proof {
                    assert(strs_view(deps) =~= gv.dependencies.map_values(
                        |d: Seq<char>| lower_of(d)).take(0));
                }
                while i < self.dependencies.len()
                    invariant
                        0 <= i <= self.dependencies.len(),
                        strs_view(deps) == gv.dependencies.map_values(
                            |d: Seq<char>| lower_of(d),
                        ).take(i as int),
                    decreases self.dependencies.len() - i,
                {
                    let ghost prev = strs_view(deps);
                    deps.push(to_lowercase(self.dependencies[i].as_str()));
                    proof {
                        let mapped = gv.dependencies.map_values(|d: Seq<char>| lower_of(d));
                        assert(strs_view(deps) =~= prev.push(mapped[i as int]));
                        assert(mapped.take(i + 1) =~= mapped.take(i as int).push(
                            mapped[i as int]));
                    }
                    i += 1;
                }
                proof {
                    let mapped = gv.dependencies.map_values(|d: Seq<char>| lower_of(d));
                    assert(mapped.take(mapped.len() as int) =~= mapped);
                }
                let ghost prevout = edges_view(*out);
                out.push((name, deps));
                proof {
                    assert(edges_view(*out) =~= prevout + spec_own_edges(gv));
                }
            },
            None => {
                proof {
                    assert(edges_view(*out) =~= base + spec_own_edges(gv));
                }
            },
        }
        let ghost mid = edges_view(*out);
        let ghost fullv = gv.files;
        proof {
            lemma_files_seq_view(self.files@);
            assert(fullv =~= files_seq_view(self.files@));
            assert(fullv.skip(0) =~= fullv);
            assert(mid + spec_edges_seq(fullv) =~= mid + spec_edges_seq(fullv));
        }
        let mut i: usize = 0;
        while i < self.files.len()
            invariant
                0 <= i <= self.files.len(),
                fullv.len() == self.files@.len(),
                forall|k: int| 0 <= k < self.files@.len() ==> fullv[k] == self.files@[
                    k].view(),
                mid + spec_edges_seq(fullv) == edges_view(*out) + spec_edges_seq(
                    fullv.skip(i as int),
                ),
            decreases self.files.len() - i,
        {
            let ghost rem = fullv.skip(i as int);
            proof {
                assert(rem.first() == fullv[i as int]);
                assert(rem.drop_first() =~= fullv.skip(i + 1));
            }
            match &self.files[i] {
                SourceFile::File(_) => {},
                SourceFile::Group(sub) => {
                    let ghost prevout = edges_view(*out);
                    sub.collect_edges(out);
                    proof {
                        let subedges = spec_edges(sub.view());
                        assert(edges_view(*out) == prevout + subedges);
                        assert((prevout + subedges) + spec_edges_seq(fullv.skip(i + 1))
                            =~= prevout + (subedges + spec_edges_seq(fullv.skip(i + 1))));
                    }
                },
            }
            i += 1;
        }
        proof {
            assert(fullv.skip(fullv.len() as int) =~= Seq::<FileV>::empty());
            assert(edges_view(*out) + Seq::<(Seq<char>, Seq<Seq<char>>)>::empty()
                =~= edges_view(*out));
        }
    }

    /// Filters this tree by package keep- and deny-sets, returning `None`
    /// when this group itself is pruned.
    pub fn filter_packages(&self, keep: &Vec<String>, deny: &Vec<String>) -> (r: Option<
        SourceGroup,
    >)
        ensures
            match r {
                Some(g2) => spec_filter_packages(self.view(), strs_view(*keep), strs_view(*deny))
                    == Some(g2.view()),
                None => spec_filter_packages(self.view(), strs_view(*keep), strs_view(*deny))
                    is None,
            },
        decreases *self,
    {
        let kept = match &self.package {
            None => true,
            Some(p) => {
                if p.as_str().unicode_len() == 0 {
                    true
                } else {
                    let low = to_lowercase(p.as_str());
                    strs_contain(keep, low.as_str()) && !strs_contain(deny, low.as_str())
                }
            },
        };
        if !kept {
            return None;
        }
        let ghost fullv = self.view().files;
        proof {
            lemma_files_seq_view(self.files@);
            assert(fullv =~= files_seq_view(self.files@));
            assert(fullv.take(0) =~= Seq::<FileV>::empty());
        }
        let mut out_files: Vec<SourceFile> = Vec::new();
        let mut i: usize = 0;
        while i < self.files.len()
            invariant
                0 <= i <= self.files.len(),
                fullv.len() == self.files@.len(),
                forall|k: int| 0 <= k < self.files@.len() ==> fullv[k] == self.files@[
                    k].view(),
                files_seq_view(out_files@) == filter_files_packages(
                    fullv.take(i as int),
                    strs_view(*keep),
                    strs_view(*deny),
                ),
            decreases self.files.len() - i,
        {
            let ghost prev = out_files@;
            proof {
                assert(fullv.take(i + 1).drop_last() =~= fullv.take(i as int));
                assert(fullv.take(i + 1).last() == fullv[i as int]);
            }
            match &self.files[i] {
                SourceFile::File(p) => {
                    out_files.push(SourceFile::File(p.clone()));
                    proof {
                        assert(out_files@.drop_last() =~= prev);
                        assert(files_seq_view(out_files@) == files_seq_view(prev).push(
                            out_files@.last().view()));
                    }
                },
                SourceFile::Group(sub) => {
                    match sub.filter_packages(keep, deny) {
                        Some(sub2) => {
                            out_files.push(SourceFile::Group(sub2));
                            proof {
                                assert(out_files@.drop_last() =~= prev);
                                assert(files_seq_view(out_files@) == files_seq_view(prev).push(
                                    out_files@.last().view()));
                            }
                        },
                        None => {},
                    }
                },
            }
            i += 1;
        }
        proof {
            assert(fullv.take(fullv.len() as int) =~= fullv);
        }
        let r = SourceGroup {
            package: clone_opt_string(&self.package),
            independent: self.independent,
            target: clone_target(&self.target),
            include_dirs: clone_string_vec(&self.include_dirs),
            export_incdirs: clone_string_vec(&self.export_incdirs),
            defines: clone_defines(&self.defines),
            files: out_files,
            dependencies: clone_string_vec(&self.dependencies),
            version: clone_opt_string(&self.version),
        };
        proof {
            assert(r.view() =~= GroupV {
                files: filter_files_packages(fullv, strs_view(*keep), strs_view(*deny)),
                ..self.view()
            });
        }
        Some(r)
    }

    /// The resolved keep-set of this tree for an allow-set and options.
    pub fn get_package_list(&self, allow: &Vec<String>, no_deps: bool) -> (r: Vec<String>)
        ensures
            strs_view(r) == spec_keep_set(spec_edges(self.view()), strs_view(*allow), no_deps),
    {
        let mut edges: Vec<(String, Vec<String>)> = Vec::new();
        self.collect_edges(&mut edges);
        proof {
            assert(edges_view(edges) =~= Seq::<(Seq<char>, Seq<Seq<char>>)>::empty()
                + spec_edges(self.view()));
            assert(Seq::<(Seq<char>, Seq<Seq<char>>)>::empty() + spec_edges(self.view())
                =~= spec_edges(self.view()));
        }
        resolve_keep_set(&edges, allow, no_deps)
    }

    /// Filters this tree by packages; when the whole tree is pruned, the
    /// empty fallback group takes its place.
    pub fn filter_packages_or_fallback(&self, keep: &Vec<String>, deny: &Vec<String>) -> (r:
        SourceGroup)
        ensures
            r.view() == match spec_filter_packages(
                self.view(),
                strs_view(*keep),
                strs_view(*deny),
            ) {
                Some(g2) => g2,
                None => crate::filter::spec_fallback_group(),
            },
    {
        match self.filter_packages(keep, deny) {
            Some(g) => g,
            None => crate::filter::fallback_group(),
        }
    }
}

proof fn lemma_filter_files_pkg_subseq(
    files: Seq<FileV>,
    keep: Seq<Seq<char>>,
    deny: Seq<Seq<char>>,
)
    ensures
        crate::filter::is_subsequence(
            crate::flatten::preorder_files_seq(filter_files_packages(files, keep, deny)),
            crate::flatten::preorder_files_seq(files),
        ),
    decreases files,
{
    if files.len() == 0 {
    } else {
        lemma_filter_files_pkg_subseq(files.drop_last(), keep, deny);
        let front = filter_files_packages(files.drop_last(), keep, deny);
        let fp = crate::flatten::preorder_files_seq(front);
        let op = crate::flatten::preorder_files_seq(files.drop_last());
        assert(files.drop_last().push(files.last()) =~= files);
        crate::filter::lemma_preorder_snoc(files.drop_last(), files.last());
        match files.last() {
            FileV::File(p) => {
                crate::filter::lemma_preorder_snoc(front, FileV::File(p));
                crate::filter::lemma_subseq_refl(seq![p]);
                crate::filter::lemma_subseq_concat(fp, op, seq![p], seq![p]);
            },
            FileV::Group(sub) => {
                match spec_filter_packages(sub, keep, deny) {
                    Some(sub2) => {
                        crate::filter::lemma_preorder_snoc(front, FileV::Group(sub2));
                        lemma_filter_files_pkg_subseq(sub.files, keep, deny);
                        assert(sub2.files == filter_files_packages(sub.files, keep, deny));
                        assert(crate::flatten::preorder_files(sub2)
                            == crate::flatten::preorder_files_seq(sub2.files));
                        crate::filter::lemma_subseq_concat(
                            fp,
                            op,
                            crate::flatten::preorder_files(sub2),
                            crate::flatten::preorder_files(sub),
                        );
                    },
                    None => {
                        crate::filter::lemma_subseq_append_right(
                            fp,
                            op,
                            crate::flatten::preorder_files(sub),
                        );
                    },
                }
            },
        }
    }
}

/// The package filter only removes files, never reorders them: the
/// pre-order file sequence of a tree that survived the package filter
/// occurs, in order, inside the pre-order file sequence of the tree it came
/// from.
pub proof fn lemma_filter_packages_only_removes(
    g: GroupV,
    keep: Seq<Seq<char>>,
    deny: Seq<Seq<char>>,
)
    requires
        spec_filter_packages(g, keep, deny) is Some,
    ensures
        crate::filter::is_subsequence(
            crate::flatten::preorder_files(spec_filter_packages(g, keep, deny)->Some_0),
            crate::flatten::preorder_files(g),
        ),
{
    lemma_filter_files_pkg_subseq(g.files, keep, deny);
}

} // verus!
