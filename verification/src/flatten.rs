//! Flattener: expands a nested source tree into a flat ordered list of
//! groups that hold only plain files.
//!
//! Nested groups are expanded in place, at the position their entry occupied
//! in the parent's sequence; the configuration inherited from ancestors is
//! merged into each expanded group (parent first, the child winning on a
//! define name collision) before it is flattened further. Runs of plain
//! files between nested groups become flat groups of their own, carrying the
//! parent's merged configuration. The expansion preserves the file order.

use vstd::prelude::*;
use crate::model::{
    FileV, GroupV, SourceFile, SourceGroup, clone_opt_string, clone_string_vec,
    clone_target, files_seq_view, files_vec_view, lemma_files_seq_view, strs_view,
};
use crate::defines::{merge_defines, spec_merge_defines};
use crate::batch::filev_path;

verus! {

/// A run of plain file paths as group entries.
pub open spec fn run_files(run: Seq<Seq<char>>) -> Seq<FileV> {
    run.map_values(|p: Seq<char>| FileV::File(p))
}

/// A flat group: the owning group's identity, the merged configuration, and
/// one contiguous run of plain files.
pub open spec fn flat_group(
    meta: GroupV,
    mdefs: Seq<(Seq<char>, Option<Seq<char>>)>,
    mdirs: Seq<Seq<char>>,
    run: Seq<Seq<char>>,
) -> GroupV {
    GroupV {
        package: meta.package,
        independent: meta.independent,
        target: meta.target,
        include_dirs: mdirs,
        export_incdirs: Seq::empty(),
        defines: mdefs,
        files: run_files(run),
        dependencies: meta.dependencies,
        version: meta.version,
    }
}

/// Flattening of a group's entries, given the merged configuration and the
/// run of plain files collected so far.
pub open spec fn flat_files(
    meta: GroupV,
    mdefs: Seq<(Seq<char>, Option<Seq<char>>)>,
    mdirs: Seq<Seq<char>>,
    files: Seq<FileV>,
    run: Seq<Seq<char>>,
) -> Seq<GroupV>
    decreases files,
{
    if files.len() == 0 {
        if run.len() == 0 {
            Seq::empty()
        } else {
            seq![flat_group(meta, mdefs, mdirs, run)]
        }
    } else {
        match files.first() {
            FileV::File(p) => flat_files(meta, mdefs, mdirs, files.drop_first(), run.push(p)),
            FileV::Group(sub) => {
                let emitted = if run.len() == 0 {
                    Seq::<GroupV>::empty()
                } else {
                    seq![flat_group(meta, mdefs, mdirs, run)]
                };
                emitted + spec_flatten_with(sub, mdefs, mdirs) + flat_files(
                    meta,
                    mdefs,
                    mdirs,
                    files.drop_first(),
                    Seq::empty(),
                )
            },
        }
    }
}

/// Flattening of one group under an inherited configuration.
pub open spec fn spec_flatten_with(
    g: GroupV,
    inh_defs: Seq<(Seq<char>, Option<Seq<char>>)>,
    inh_dirs: Seq<Seq<char>>,
) -> Seq<GroupV>
    decreases g,
{
    flat_files(
        g,
        spec_merge_defines(inh_defs, g.defines),
        inh_dirs + g.incdirs(),
        g.files,
        Seq::empty(),
    )
}

/// Flattening of a whole tree: no configuration is inherited at the root.
pub open spec fn spec_flatten(g: GroupV) -> Seq<GroupV> {
    spec_flatten_with(g, Seq::empty(), Seq::empty())
}

/// View of a vector of groups.
pub open spec fn groups_view(v: Vec<SourceGroup>) -> Seq<GroupV> {
    v@.map_values(|g: SourceGroup| g.view())
}

/// Concatenates two string vectors.
pub fn concat_strs(a: &Vec<String>, b: &Vec<String>) -> (r: Vec<String>)
    ensures
        r@ == a@ + b@,
{
    let mut out = clone_string_vec(a);
    let mut i: usize = 0;
    while i < b.len()
        invariant
            0 <= i <= b.len(),
            out@ == a@ + b@.take(i as int),
        decreases b.len() - i,
    {
        out.push(b[i].clone());
        proof {
            assert(out@ =~= a@ + b@.take(i + 1));
        }
        i += 1;
    }
    proof {
        assert(a@ + b@.take(b@.len() as int) =~= a@ + b@);
        assert(a@ + b@.take(0) =~= a@);
    }
    out
}

/// Turns a run of paths into plain file entries.
fn run_to_files(run: Vec<String>) -> (r: Vec<SourceFile>)
    ensures
        files_vec_view(r) == run_files(strs_view(run)),
{
    let mut out: Vec<SourceFile> = Vec::new();
    proof {
        assert(files_seq_view(out@) =~= run_files(strs_view(run).take(0)));
    }
    let mut i: usize = 0;
    while i < run.len()
        invariant
            0 <= i <= run.len(),
            files_seq_view(out@) == run_files(strs_view(run).take(i as int)),
        decreases run.len() - i,
    {
        let ghost prev = out@;
        out.push(SourceFile::File(run[i].clone()));
        proof {
            assert(out@.drop_last() =~= prev);
            assert(files_seq_view(out@) == files_seq_view(prev).push(out@.last().view()));
            assert(strs_view(run).take(i + 1) =~= strs_view(run).take(i as int).push(strs_view(
                run)[i as int]));
            assert(files_seq_view(out@) =~= run_files(strs_view(run).take(i + 1)));
        }
        i += 1;
    }
    proof {
        assert(strs_view(run).take(run@.len() as int) =~= strs_view(run));
    }
    out
}

impl SourceGroup {
    /// Emits the flattened groups of this tree under an inherited
    /// configuration, appending to `out`.
    fn flatten_into(
        &self,
        inh_defs: &Vec<(String, Option<String>)>,
        inh_dirs: &Vec<String>,
        out: &mut Vec<SourceGroup>,
    )
        ensures
            groups_view(*final(out)) == groups_view(*old(out)) + spec_flatten_with(
                self.view(),
                crate::model::defs_view(*inh_defs),
                strs_view(*inh_dirs),
            ),
        decreases *self,
    {
        let mdefs = merge_defines(inh_defs, &self.defines);
        let own_dirs = concat_strs(&self.include_dirs, &self.export_incdirs);
        let mdirs = concat_strs(inh_dirs, &own_dirs);
        let ghost gv = self.view();
        let ghost idefsv = crate::model::defs_view(*inh_defs);
        let ghost idirsv = strs_view(*inh_dirs);
        let ghost mdefsv = crate::model::defs_view(mdefs);
        let ghost mdirsv = strs_view(mdirs);
        let ghost base = groups_view(*out);
        let ghost whole = spec_flatten_with(gv, idefsv, idirsv);
        proof {
            assert(mdirsv =~= idirsv + gv.incdirs());
            assert(whole == flat_files(gv, mdefsv, mdirsv, gv.files, Seq::empty()));
            lemma_files_seq_view(self.files@);
            assert(gv.files =~= files_seq_view(self.files@));
        }
        let mut run: Vec<String> = Vec::new();
        let mut i: usize = 0;
        proof {
            assert(gv.files.skip(0) =~= gv.files);
            assert(strs_view(run) =~= Seq::<Seq<char>>::empty());
            assert(groups_view(*out).skip(base.len() as int) =~= Seq::<GroupV>::empty());
            assert(Seq::<GroupV>::empty() + flat_files(gv, mdefsv, mdirsv, gv.files,
                Seq::empty()) =~= flat_files(gv, mdefsv, mdirsv, gv.files, Seq::empty()));
            assert(groups_view(*out).take(base.len() as int) =~= base);
        }
        while i < self.files.len()
            invariant
                0 <= i <= self.files.len(),
                gv.files.len() == self.files@.len(),
                forall|k: int| 0 <= k < self.files@.len() ==> gv.files[k] == self.files@[
                    k].view(),
                whole == groups_view(*out).skip(base.len() as int) + flat_files(
                    gv,
                    mdefsv,
                    mdirsv,
                    gv.files.skip(i as int),
                    strs_view(run),
                ),
                groups_view(*out).take(base.len() as int) == base,
                groups_view(*out).len() >= base.len(),
            decreases self.files.len() - i,
        {
            let ghost rem = gv.files.skip(i as int);
            let ghost runv = strs_view(run);
            proof {
                assert(rem.first() == gv.files[i as int]);
                assert(rem.drop_first() =~= gv.files.skip(i + 1));
            }
            match &self.files[i] {
                SourceFile::File(p) => {
                    let ghost prevrun = strs_view(run);
                    run.push(p.clone());
                    proof {
                        assert(strs_view(run) =~= prevrun.push(filev_path(rem.first())));
                        assert(flat_files(gv, mdefsv, mdirsv, rem, prevrun) == flat_files(
                            gv, mdefsv, mdirsv, gv.files.skip(i + 1), strs_view(run)));
                    }
                },
                SourceFile::Group(sub) => {
                    let ghost emitted = if runv.len() == 0 {
                        Seq::<GroupV>::empty()
                    } else {
                        seq![flat_group(gv, mdefsv, mdirsv, runv)]
                    };
                    let ghost prevout = groups_view(*out);
                    if run.len() > 0 {
                        let taken = run;
                        run = Vec::new();
                        let fg = SourceGroup {
                            package: clone_opt_string(&self.package),
                            independent: self.independent,
                            target: clone_target(&self.target),
                            include_dirs: clone_string_vec(&mdirs),
                            export_incdirs: Vec::new(),
                            defines: crate::model::clone_defines(&mdefs),
                            files: run_to_files(taken),
                            dependencies: clone_string_vec(&self.dependencies),
                            version: clone_opt_string(&self.version),
                        };
                        proof {
                            assert(fg.view() =~= flat_group(gv, mdefsv, mdirsv, runv));
                        }
                        out.push(fg);
                        proof {
                            assert(groups_view(*out) =~= prevout + emitted);
                        }
                    } else {
                        proof {
                            assert(groups_view(*out) =~= prevout + emitted);
                        }
                    }
                    let ghost midout = groups_view(*out);
                    proof {
                        assert(midout.take(base.len() as int) =~= base);
                    }
                    sub.flatten_into(&mdefs, &mdirs, out);
                    proof {
                        assert(strs_view(run) =~= Seq::<Seq<char>>::empty());
                        let subflat = spec_flatten_with(sub.view(), mdefsv, mdirsv);
                        assert(rem.first() == FileV::Group(sub.view()));
                        assert(rem.first()->Group_0 == sub.view());
                        let tail = flat_files(gv, mdefsv, mdirsv, gv.files.skip(i + 1),
                            Seq::<Seq<char>>::empty());
                        assert(flat_files(gv, mdefsv, mdirsv, rem, runv) == emitted + subflat
                            + tail);
                        assert(groups_view(*out) == midout + subflat);
                        assert(groups_view(*out).skip(base.len() as int) =~= (prevout.skip(
                            base.len() as int) + emitted) + subflat);
                        assert(prevout.skip(base.len() as int) + (emitted + subflat + tail)
                            =~= ((prevout.skip(base.len() as int) + emitted) + subflat)
                            + tail);
                        assert(whole == groups_view(*out).skip(base.len() as int) + tail);
                        assert(groups_view(*out).take(base.len() as int) =~= base);
                    }
                },
            }
            i += 1;
        }
        proof {
            assert(gv.files.skip(gv.files.len() as int) =~= Seq::<FileV>::empty());
        }
        let ghost runv = strs_view(run);
        let ghost prevout = groups_view(*out);
        if run.len() > 0 {
            let taken = run;
            let fg = SourceGroup {
                package: clone_opt_string(&self.package),
                independent: self.independent,
                target: clone_target(&self.target),
                include_dirs: clone_string_vec(&mdirs),
                export_incdirs: Vec::new(),
                defines: crate::model::clone_defines(&mdefs),
                files: run_to_files(taken),
                dependencies: clone_string_vec(&self.dependencies),
                version: clone_opt_string(&self.version),
            };
            proof {
                assert(fg.view() =~= flat_group(gv, mdefsv, mdirsv, runv));
            }
            out.push(fg);
            proof {
                assert(flat_files(gv, mdefsv, mdirsv, Seq::<FileV>::empty(), runv) == seq![
                    flat_group(gv, mdefsv, mdirsv, runv)]);
                assert(groups_view(*out) =~= prevout + seq![fg.view()]);
                assert(groups_view(*out).skip(base.len() as int) =~= prevout.skip(
                    base.len() as int) + seq![fg.view()]);
                assert(whole =~= groups_view(*out).skip(base.len() as int));
            }
        } else {
            proof {
                assert(flat_files(gv, mdefsv, mdirsv, Seq::<FileV>::empty(), runv)
                    =~= Seq::<GroupV>::empty());
                assert(prevout.skip(base.len() as int) + Seq::<GroupV>::empty() =~= prevout.skip(
                    base.len() as int));
                assert(whole =~= groups_view(*out).skip(base.len() as int));
            }
        }
        proof {
            assert(groups_view(*out).take(base.len() as int) =~= base);
            assert(base + groups_view(*out).skip(base.len() as int) =~= groups_view(*out));
        }
    }

    /// Flattens this tree into a flat ordered list of groups holding only
    /// plain files, with inherited configuration merged in.
    pub fn flatten(&self) -> (r: Vec<SourceGroup>)
        ensures
            groups_view(r) == spec_flatten(self.view()),
    {
        let empty_defs: Vec<(String, Option<String>)> = Vec::new();
        let empty_dirs: Vec<String> = Vec::new();
        let mut out: Vec<SourceGroup> = Vec::new();
        self.flatten_into(&empty_defs, &empty_dirs, &mut out);
        proof {
            assert(crate::model::defs_view(empty_defs) =~= Seq::<(
                Seq<char>,
                Option<Seq<char>>,
            )>::empty());
            assert(strs_view(empty_dirs) =~= Seq::<Seq<char>>::empty());
            assert(groups_view(out) =~= Seq::<GroupV>::empty() + spec_flatten(self.view()));
        }
        out
    }
}

/// Paths of the plain files of a tree, in a pre-order, left-to-right walk.
pub open spec fn preorder_files(g: GroupV) -> Seq<Seq<char>>
    decreases g,
{
    preorder_files_seq(g.files)
}

/// Paths of a file sequence, nested groups expanded in place.
pub open spec fn preorder_files_seq(files: Seq<FileV>) -> Seq<Seq<char>>
    decreases files,
{
    if files.len() == 0 {
        Seq::empty()
    } else {
        let rest = preorder_files_seq(files.drop_first());
        match files.first() {
            FileV::File(p) => seq![p] + rest,
            FileV::Group(sub) => preorder_files(sub) + rest,
        }
    }
}

/// Paths of a flat group list, in order.
pub open spec fn flat_paths(gs: Seq<GroupV>) -> Seq<Seq<char>>
    decreases gs.len(),
{
    if gs.len() == 0 {
        Seq::empty()
    } else {
        gs.first().files.map_values(|f: FileV| filev_path(f)) + flat_paths(gs.drop_first())
    }
}

proof fn lemma_flat_paths_concat(a: Seq<GroupV>, b: Seq<GroupV>)
    ensures
        flat_paths(a + b) == flat_paths(a) + flat_paths(b),
    decreases a.len(),
{
    if a.len() == 0 {
        assert(a + b =~= b);
        assert(flat_paths(a) + flat_paths(b) =~= flat_paths(b));
    } else {
        lemma_flat_paths_concat(a.drop_first(), b);
        assert((a + b).first() == a.first());
        assert((a + b).drop_first() =~= a.drop_first() + b);
        assert(a.first().files.map_values(|f: FileV| filev_path(f)) + (flat_paths(
            a.drop_first()) + flat_paths(b)) =~= (a.first().files.map_values(
            |f: FileV| filev_path(f)) + flat_paths(a.drop_first())) + flat_paths(b));
    }
}

proof fn lemma_flat_files_paths(
    meta: GroupV,
    mdefs: Seq<(Seq<char>, Option<Seq<char>>)>,
    mdirs: Seq<Seq<char>>,
    files: Seq<FileV>,
    run: Seq<Seq<char>>,
)
    ensures
        flat_paths(flat_files(meta, mdefs, mdirs, files, run)) == run + preorder_files_seq(
            files,
        ),
    decreases files,
{
    if files.len() == 0 {
        if run.len() == 0 {
            assert(run + preorder_files_seq(files) =~= Seq::<Seq<char>>::empty());
        } else {
            let fg = flat_group(meta, mdefs, mdirs, run);
            assert(flat_paths(seq![fg]) == fg.files.map_values(|f: FileV| filev_path(f))
                + flat_paths(seq![fg].drop_first())) by {
                assert(seq![fg].first() == fg);
            }
            assert(seq![fg].drop_first() =~= Seq::<GroupV>::empty());
            assert(fg.files.map_values(|f: FileV| filev_path(f)) =~= run);
            assert(run + flat_paths(Seq::<GroupV>::empty()) =~= run);
            assert(run + preorder_files_seq(files) =~= run);
        }
    } else {
        let rest = files.drop_first();
        match files.first() {
            FileV::File(p) => {
                lemma_flat_files_paths(meta, mdefs, mdirs, rest, run.push(p));
                assert(run.push(p) + preorder_files_seq(rest) =~= run + (seq![p]
                    + preorder_files_seq(rest)));
            },
            FileV::Group(sub) => {
                let emitted = if run.len() == 0 {
                    Seq::<GroupV>::empty()
                } else {
                    seq![flat_group(meta, mdefs, mdirs, run)]
                };
                let subflat = spec_flatten_with(sub, mdefs, mdirs);
                let tail = flat_files(meta, mdefs, mdirs, rest, Seq::empty());
                lemma_flatten_with_paths(sub, mdefs, mdirs);
                lemma_flat_files_paths(meta, mdefs, mdirs, rest, Seq::empty());
                lemma_flat_paths_concat(emitted + subflat, tail);
                lemma_flat_paths_concat(emitted, subflat);
                assert(flat_paths(emitted) == run) by {
                    if run.len() == 0 {
                        assert(flat_paths(emitted) =~= run);
                    } else {
                        let fg = flat_group(meta, mdefs, mdirs, run);
                        assert(seq![fg].first() == fg);
                        assert(flat_paths(seq![fg]) == fg.files.map_values(
                            |f: FileV| filev_path(f)) + flat_paths(seq![fg].drop_first()));
                        assert(seq![fg].drop_first() =~= Seq::<GroupV>::empty());
                        assert(flat_paths(Seq::<GroupV>::empty()) == Seq::<Seq<char>>::empty());
                        assert(fg.files.map_values(|f: FileV| filev_path(f)) =~= run);
                        assert(run + Seq::<Seq<char>>::empty() =~= run);
                        assert(flat_paths(emitted) =~= run);
                    }
                }
                assert(flat_paths(tail) == Seq::<Seq<char>>::empty() + preorder_files_seq(
                    rest));
                assert(Seq::<Seq<char>>::empty() + preorder_files_seq(rest)
                    =~= preorder_files_seq(rest));
                assert((run + preorder_files(sub)) + preorder_files_seq(rest) =~= run + (
                preorder_files(sub) + preorder_files_seq(rest)));
            },
        }
    }
}

proof fn lemma_flatten_with_paths(
    g: GroupV,
    inh_defs: Seq<(Seq<char>, Option<Seq<char>>)>,
    inh_dirs: Seq<Seq<char>>,
)
    ensures
        flat_paths(spec_flatten_with(g, inh_defs, inh_dirs)) == preorder_files(g),
    decreases g,
{
    lemma_flat_files_paths(
        g,
        spec_merge_defines(inh_defs, g.defines),
        inh_dirs + g.incdirs(),
        g.files,
        Seq::empty(),
    );
    assert(Seq::<Seq<char>>::empty() + preorder_files_seq(g.files) =~= preorder_files_seq(
        g.files));
}

/// Order preservation: the file order of the flattened list equals a
/// pre-order, left-to-right traversal of the tree it came from.
pub proof fn lemma_flatten_preserves_order(g: GroupV)
    ensures
        flat_paths(spec_flatten(g)) == preorder_files(g),
{
    lemma_flatten_with_paths(g, Seq::empty(), Seq::empty());
}

} // verus!
