//! Target filter: prunes the source tree to the groups that apply under a
//! requested set of target names.
//!
//! A group survives exactly when its own target rule applies (a wildcard, or
//! an explicit set that intersects the requested names); its nested groups
//! are filtered recursively, and a group that does not apply is dropped
//! together with its whole subtree. Plain file entries are always kept. If
//! the top-level group itself is dropped, callers substitute a well-defined
//! empty fallback group, so downstream stages always receive a valid group.

use vstd::prelude::*;
use crate::model::{
    FileV, GroupV, SourceFile, SourceGroup, TargetSet, TargetSpecV, clone_defines,
    clone_opt_string, clone_string_vec, clone_target, files_seq_view, files_vec_view,
    lemma_files_seq_view, spec_applies, strs_view,
};

verus! {

/// Files surviving the target filter: plain files are kept, nested groups
/// are filtered recursively and dropped when they do not apply.
pub open spec fn filter_files_targets(files: Seq<FileV>, req: Seq<Seq<char>>) -> Seq<FileV>
    decreases files,
{
    if files.len() == 0 {
        Seq::empty()
    } else {
        let front = filter_files_targets(files.drop_last(), req);
        match files.last() {
            FileV::File(p) => front.push(FileV::File(p)),
            FileV::Group(sub) => match spec_filter_targets(sub, req) {
                Some(sub2) => front.push(FileV::Group(sub2)),
                None => front,
            },
        }
    }
}

/// The target filter on one group: `None` when the group's own target rule
/// does not apply, otherwise the group with its entries filtered.
pub open spec fn spec_filter_targets(g: GroupV, req: Seq<Seq<char>>) -> Option<GroupV>
    decreases g,
{
    if !spec_applies(g.target, req) {
        None
    } else {
        Some(GroupV { files: filter_files_targets(g.files, req), ..g })
    }
}

/// The empty fallback group substituted when a filter removes the whole
/// top-level group.
pub open spec fn spec_fallback_group() -> GroupV {
    GroupV {
        package: None,
        independent: true,
        target: TargetSpecV::Wildcard,
        include_dirs: Seq::empty(),
        export_incdirs: Seq::empty(),
        defines: Seq::empty(),
        files: Seq::empty(),
        dependencies: Seq::empty(),
        version: None,
    }
}

/// Builds the empty fallback group.
pub fn fallback_group() -> (r: SourceGroup)
    ensures
        r.view() == spec_fallback_group(),
{
    let r = SourceGroup {
        package: None,
        independent: true,
        target: crate::model::TargetSpec::Wildcard,
        include_dirs: Vec::new(),
        export_incdirs: Vec::new(),
        defines: Vec::new(),
        files: Vec::new(),
        dependencies: Vec::new(),
        version: None,
    };
    proof {
        assert(r.view() =~= spec_fallback_group());
    }
    r
}

impl SourceGroup {
    /// Filters this tree by the requested target set, returning `None` when
    /// this group itself does not apply.
    pub fn filter_targets(&self, targets: &TargetSet) -> (r: Option<SourceGroup>)
        ensures
            match r {
                Some(g2) => spec_filter_targets(self.view(), targets.view()) == Some(g2.view()),
                None => spec_filter_targets(self.view(), targets.view()) is None,
            },
        decreases *self,
    {
        if !self.target.applies_to(targets) {
            return None;
        }
        let ghost fullv = self.view().files;
        proof {
            lemma_files_seq_view(self.files@);
            assert(fullv =~= files_seq_view(self.files@));
            assert(fullv.take(0) =~= Seq::<FileV>::empty());
        }
        let mut out_files: Vec<SourceFile> = Vec::new();
        let mut i: usize = 0;
        while i < self.files.len()
            invariant
                0 <= i <= self.files.len(),
                fullv.len() == self.files@.len(),
                forall|k: int| 0 <= k < self.files@.len() ==> fullv[k] == self.files@[k].view(),
                files_seq_view(out_files@) == filter_files_targets(
                    fullv.take(i as int),
                    targets.view(),
                ),
            decreases self.files.len() - i,
        {
            let ghost prev = out_files@;
            proof {
                assert(fullv.take(i + 1).drop_last() =~= fullv.take(i as int));
                assert(fullv.take(i + 1).last() == fullv[i as int]);
            }
            match &self.files[i] {
                SourceFile::File(p) => {
                    out_files.push(SourceFile::File(p.clone()));
                    proof {
                        assert(out_files@.drop_last() =~= prev);
                        assert(files_seq_view(out_files@) == files_seq_view(prev).push(
                            out_files@.last().view()));
                    }
                },
                SourceFile::Group(sub) => {
                    match sub.filter_targets(targets) {
                        Some(sub2) => {
                            out_files.push(SourceFile::Group(sub2));
                            proof {
                                assert(out_files@.drop_last() =~= prev);
                                assert(files_seq_view(out_files@) == files_seq_view(prev).push(
                                    out_files@.last().view()));
                            }
                        },
                        None => {},
                    }
                },
            }
            i += 1;
        }
        proof {
            assert(fullv.take(fullv.len() as int) =~= fullv);
        }
        let r = SourceGroup {
            package: clone_opt_string(&self.package),
            independent: self.independent,
            target: clone_target(&self.target),
            include_dirs: clone_string_vec(&self.include_dirs),
            export_incdirs: clone_string_vec(&self.export_incdirs),
            defines: clone_defines(&self.defines),
            files: out_files,
            dependencies: clone_string_vec(&self.dependencies),
            version: clone_opt_string(&self.version),
        };
        proof {
            assert(r.view() =~= GroupV {
                files: filter_files_targets(fullv, targets.view()),
                ..self.view()
            });
        }
        Some(r)
    }

    /// Filters this tree by the requested target set; when the whole tree is
    /// removed, the empty fallback group takes its place.
    pub fn filter_targets_or_fallback(&self, targets: &TargetSet) -> (r: SourceGroup)
        ensures
            r.view() == match spec_filter_targets(self.view(), targets.view()) {
                Some(g2) => g2,
                None => spec_fallback_group(),
            },
    {
        match self.filter_targets(targets) {
            Some(g) => g,
            None => fallback_group(),
        }
    }
}

/// Wildcard survival: a group whose target is the wildcard is kept by the
/// target filter, whatever the requested set — including the empty one.
/// More generally, a group survives exactly when its target rule applies.
pub proof fn lemma_filter_targets_survival(g: GroupV, req: Seq<Seq<char>>)
    ensures
        spec_filter_targets(g, req) is Some <==> spec_applies(g.target, req),
        g.target is Wildcard ==> spec_filter_targets(g, req) is Some,
{
}

/// Target exclusion, subtree side: every nested group kept by the target
/// filter has a target rule that applies to the requested set; a group with
/// a disjoint explicit target set is absent.
pub proof fn lemma_filtered_children_apply(files: Seq<FileV>, req: Seq<Seq<char>>)
    ensures
        forall|k: int|
            0 <= k < filter_files_targets(files, req).len() && (#[trigger] filter_files_targets(
                files,
                req,
            )[k]) is Group ==> spec_applies(filter_files_targets(files, req)[k]->Group_0.target, req),
    decreases files,
{
    if files.len() == 0 {
    } else {
        lemma_filtered_children_apply(files.drop_last(), req);
        let front = filter_files_targets(files.drop_last(), req);
        let whole = filter_files_targets(files, req);
        match files.last() {
            FileV::File(p) => {
                assert(forall|k: int| 0 <= k < front.len() ==> whole[k] == front[k]);
            },
            FileV::Group(sub) => {
                match spec_filter_targets(sub, req) {
                    Some(sub2) => {
                        assert(spec_applies(sub.target, req));
                        assert(sub2.target == sub.target);
                        assert(forall|k: int| 0 <= k < front.len() ==> whole[k] == front[k]);
                        assert(whole[whole.len() - 1] == FileV::Group(sub2));
                    },
                    None => {},
                }
            },
        }
    }
}

/// Wildcard survival, subtree side: a nested group whose target is the
/// wildcard is present in the filtered entry sequence, in its filtered form.
pub proof fn lemma_wildcard_child_survives(files: Seq<FileV>, req: Seq<Seq<char>>, j: int)
    requires
        0 <= j < files.len(),
        files[j] is Group,
        files[j]->Group_0.target is Wildcard,
    ensures
        filter_files_targets(files, req).contains(
            FileV::Group(spec_filter_targets(files[j]->Group_0, req)->Some_0),
        ),
    decreases files,
{
    let front = filter_files_targets(files.drop_last(), req);
    let whole = filter_files_targets(files, req);
    let target_file = FileV::Group(spec_filter_targets(files[j]->Group_0, req)->Some_0);
    if j == files.len() - 1 {
        let sub = files.last()->Group_0;
        lemma_filter_targets_survival(sub, req);
        let sub2 = spec_filter_targets(sub, req)->Some_0;
        assert(whole == front.push(FileV::Group(sub2)));
        assert(whole[whole.len() - 1] == target_file);
    } else {
        lemma_wildcard_child_survives(files.drop_last(), req, j);
        let k = choose|k: int| 0 <= k < front.len() && front[k] == target_file;
        match files.last() {
            FileV::File(p) => {
                assert(whole[k] == target_file);
            },
            FileV::Group(sub) => {
                match spec_filter_targets(sub, req) {
                    Some(sub2) => {
                        assert(whole[k] == target_file);
                    },
                    None => {
                        assert(whole[k] == target_file);
                    },
                }
            },
        }
    }
}

/// Whether `a` occurs inside `b` in order (possibly with gaps): the greedy
/// left-to-right matching.
pub open spec fn is_subsequence(a: Seq<Seq<char>>, b: Seq<Seq<char>>) -> bool
    decreases b.len(),
{
    if a.len() == 0 {
        true
    } else if b.len() == 0 {
        false
    } else if a.first() == b.first() {
        is_subsequence(a.drop_first(), b.drop_first())
    } else {
        is_subsequence(a, b.drop_first())
    }
}

pub(crate) proof fn lemma_subseq_refl(a: Seq<Seq<char>>)
    ensures
        is_subsequence(a, a),
    decreases a.len(),
{
    if a.len() > 0 {
        lemma_subseq_refl(a.drop_first());
    }
}

proof fn lemma_subseq_weaken(c: Seq<Seq<char>>, b: Seq<Seq<char>>)
    requires
        b.len() > 0,
        is_subsequence(c, b.drop_first()),
    ensures
        is_subsequence(c, b),
    decreases b.len(), 0nat,
{
    if c.len() == 0 {
    } else if c.first() == b.first() {
        lemma_subseq_drop_left(c, b.drop_first());
    } else {
    }
}

proof fn lemma_subseq_drop_left(a: Seq<Seq<char>>, b: Seq<Seq<char>>)
    requires
        a.len() > 0,
        is_subsequence(a, b),
    ensures
        is_subsequence(a.drop_first(), b),
    decreases b.len(), 1nat,
{
    assert(b.len() > 0);
    if a.first() == b.first() {
        lemma_subseq_weaken(a.drop_first(), b);
    } else {
        lemma_subseq_drop_left(a, b.drop_first());
        lemma_subseq_weaken(a.drop_first(), b);
    }
}

proof fn lemma_subseq_prepend(c: Seq<Seq<char>>, x: Seq<Seq<char>>, d: Seq<Seq<char>>)
    requires
        is_subsequence(c, d),
    ensures
        is_subsequence(c, x + d),
    decreases x.len(),
{
    if x.len() == 0 {
        assert(x + d =~= d);
    } else {
        lemma_subseq_prepend(c, x.drop_first(), d);
        assert((x + d).len() > 0);
        assert((x + d).drop_first() =~= x.drop_first() + d);
        lemma_subseq_weaken(c, x + d);
    }
}

pub(crate) proof fn lemma_subseq_concat(
    a1: Seq<Seq<char>>,
    b1: Seq<Seq<char>>,
    a2: Seq<Seq<char>>,
    b2: Seq<Seq<char>>,
)
    requires
        is_subsequence(a1, b1),
        is_subsequence(a2, b2),
    ensures
        is_subsequence(a1 + a2, b1 + b2),
    decreases b1.len(),
{
    if b1.len() == 0 {
        assert(a1.len() == 0);
        assert(a1 + a2 =~= a2);
        assert(b1 + b2 =~= b2);
    } else if a1.len() == 0 {
        assert(a1 + a2 =~= a2);
        lemma_subseq_prepend(a2, b1, b2);
    } else if a1.first() == b1.first() {
        assert((a1 + a2).first() == (b1 + b2).first());
        assert((a1 + a2).drop_first() =~= a1.drop_first() + a2);
        assert((b1 + b2).drop_first() =~= b1.drop_first() + b2);
        lemma_subseq_concat(a1.drop_first(), b1.drop_first(), a2, b2);
    } else {
        assert((a1 + a2).first() != (b1 + b2).first());
        assert((b1 + b2).drop_first() =~= b1.drop_first() + b2);
        lemma_subseq_concat(a1, b1.drop_first(), a2, b2);
    }
}

pub(crate) proof fn lemma_subseq_append_right(c: Seq<Seq<char>>, d: Seq<Seq<char>>, x: Seq<Seq<char>>)
    requires
        is_subsequence(c, d),
    ensures
        is_subsequence(c, d + x),
{
    lemma_subseq_concat(c, d, Seq::empty(), x);
    assert(c + Seq::<Seq<char>>::empty() =~= c);
}

pub(crate) proof fn lemma_preorder_snoc(files: Seq<FileV>, f: FileV)
    ensures
        crate::flatten::preorder_files_seq(files.push(f)) == crate::flatten::preorder_files_seq(
            files,
        ) + match f {
            FileV::File(p) => seq![p],
            FileV::Group(sub) => crate::flatten::preorder_files(sub),
        },
    decreases files.len(),
{
    let pushed = files.push(f);
    let fpart: Seq<Seq<char>> = match f {
        FileV::File(p) => seq![p],
        FileV::Group(sub) => crate::flatten::preorder_files(sub),
    };
    if files.len() == 0 {
        assert(pushed.first() == f);
        assert(pushed.drop_first() =~= Seq::<FileV>::empty());
        assert(crate::flatten::preorder_files_seq(Seq::<FileV>::empty())
            == Seq::<Seq<char>>::empty());
        assert(fpart + Seq::<Seq<char>>::empty() =~= fpart);
        assert(crate::flatten::preorder_files_seq(files) + fpart =~= fpart);
    } else {
        assert(pushed.first() == files.first());
        assert(pushed.drop_first() =~= files.drop_first().push(f));
        lemma_preorder_snoc(files.drop_first(), f);
        let headpart: Seq<Seq<char>> = match files.first() {
            FileV::File(p) => seq![p],
            FileV::Group(sub) => crate::flatten::preorder_files(sub),
        };
        assert(headpart + (crate::flatten::preorder_files_seq(files.drop_first()) + fpart)
            =~= (headpart + crate::flatten::preorder_files_seq(files.drop_first())) + fpart);
    }
}

proof fn lemma_filter_files_subseq(files: Seq<FileV>, req: Seq<Seq<char>>)
    ensures
        is_subsequence(
            crate::flatten::preorder_files_seq(filter_files_targets(files, req)),
            crate::flatten::preorder_files_seq(files),
        ),
    decreases files,
{
    if files.len() == 0 {
    } else {
        lemma_filter_files_subseq(files.drop_last(), req);
        let front = filter_files_targets(files.drop_last(), req);
        let fp = crate::flatten::preorder_files_seq(front);
        let op = crate::flatten::preorder_files_seq(files.drop_last());
        assert(files.drop_last().push(files.last()) =~= files);
        lemma_preorder_snoc(files.drop_last(), files.last());
        match files.last() {
            FileV::File(p) => {
                lemma_preorder_snoc(front, FileV::File(p));
                lemma_subseq_refl(seq![p]);
                lemma_subseq_concat(fp, op, seq![p], seq![p]);
            },
            FileV::Group(sub) => {
                match spec_filter_targets(sub, req) {
                    Some(sub2) => {
                        lemma_preorder_snoc(front, FileV::Group(sub2));
                        lemma_filter_files_subseq(sub.files, req);
                        assert(sub2.files == filter_files_targets(sub.files, req));
                        assert(crate::flatten::preorder_files(sub2)
                            == crate::flatten::preorder_files_seq(sub2.files));
                        lemma_subseq_concat(
                            fp,
                            op,
                            crate::flatten::preorder_files(sub2),
                            crate::flatten::preorder_files(sub),
                        );
                    },
                    None => {
                        lemma_subseq_append_right(fp, op, crate::flatten::preorder_files(sub));
                    },
                }
            },
        }
    }
}

/// Filtering only removes files, never reorders them: the pre-order file
/// sequence of a tree that survived the target filter occurs, in order,
/// inside the pre-order file sequence of the tree it came from.
pub proof fn lemma_filter_targets_only_removes(g: GroupV, req: Seq<Seq<char>>)
    requires
        spec_filter_targets(g, req) is Some,
    ensures
        is_subsequence(
            crate::flatten::preorder_files(spec_filter_targets(g, req)->Some_0),
            crate::flatten::preorder_files(g),
        ),
{
    lemma_filter_files_subseq(g.files, req);
}

} // verus!
