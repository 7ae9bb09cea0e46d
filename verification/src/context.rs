//! Aggregator and context assembly: computes the global defines, the
//! deduplicating ordered aggregates (include directories, files, files by
//! language), and the per-batch entries, and assembles the context a
//! backend template is rendered from.
//!
//! A batch's effective define list is the global define list with the
//! owning group's defines appended afterward — a concatenation, not an
//! override-aware merge: a name may appear twice, and the consuming backend
//! resolves the precedence. The partial-context flags zero out the
//! non-selected aggregates before rendering.

use vstd::prelude::*;
use crate::model::{
    FileV, GroupV, SourceGroup, TargetSet, clone_opt_string, clone_string_vec, dedup_first,
    def_view, defs_view, strs_view,
};
use crate::batch::{BatchV, SourceType, filev_path, separate_files_in_group, spec_batches};
use crate::defines::{upper_of, to_uppercase};
use crate::order::{sort_defines, spec_sort_defines};
use crate::format::{CompilationMode, EmitOptions, OptsV};
use crate::flatten::groups_view;
use crate::iset::dedup_strs;

verus! {

/// One entry of the per-batch list handed to a template: the batch's
/// effective defines, the owning group's include directories, the files of
/// the batch, and its language name.
pub struct BatchContext {
    pub defines: Vec<(String, Option<String>)>,
    pub incdirs: Vec<String>,
    pub files: Vec<String>,
    pub file_type: String,
}

/// Ghost mirror of `BatchContext`.
#[verifier::ext_equal]
pub ghost struct BatchCtxV {
    pub defines: Seq<(Seq<char>, Option<Seq<char>>)>,
    pub incdirs: Seq<Seq<char>>,
    pub files: Seq<Seq<char>>,
    pub file_type: Seq<char>,
}

impl BatchContext {
    pub open spec fn view(self) -> BatchCtxV {
        BatchCtxV {
            defines: defs_view(self.defines),
            incdirs: strs_view(self.incdirs),
            files: strs_view(self.files),
            file_type: self.file_type@,
        }
    }
}

/// View of the per-batch list.
pub open spec fn srcs_view(v: Vec<BatchContext>) -> Seq<BatchCtxV> {
    v@.map_values(|b: BatchContext| b.view())
}

/// The assembled template context.
pub struct ScriptContext {
    pub root: String,
    pub abort_on_error: bool,
    pub global_defines: Vec<(String, Option<String>)>,
    pub all_defines: Vec<(String, Option<String>)>,
    pub all_incdirs: Vec<String>,
    pub all_files: Vec<String>,
    pub srcs: Vec<BatchContext>,
    pub all_verilog: Vec<String>,
    pub all_vhdl: Vec<String>,
    pub vlog_args: Vec<String>,
    pub vcom_args: Vec<String>,
    pub vlogan_bin: String,
    pub vhdlan_bin: String,
    pub relativize_path: bool,
    pub compilation_mode: String,
    pub vivado_filesets: Vec<String>,
}

/// Ghost mirror of `ScriptContext`.
#[verifier::ext_equal]
pub ghost struct ContextV {
    pub root: Seq<char>,
    pub abort_on_error: bool,
    pub global_defines: Seq<(Seq<char>, Option<Seq<char>>)>,
    pub all_defines: Seq<(Seq<char>, Option<Seq<char>>)>,
    pub all_incdirs: Seq<Seq<char>>,
    pub all_files: Seq<Seq<char>>,
    pub srcs: Seq<BatchCtxV>,
    pub all_verilog: Seq<Seq<char>>,
    pub all_vhdl: Seq<Seq<char>>,
    pub vlog_args: Seq<Seq<char>>,
    pub vcom_args: Seq<Seq<char>>,
    pub vlogan_bin: Seq<char>,
    pub vhdlan_bin: Seq<char>,
    pub relativize_path: bool,
    pub compilation_mode: Seq<char>,
    pub vivado_filesets: Seq<Seq<char>>,
}

impl ScriptContext {
    pub open spec fn view(self) -> ContextV {
        ContextV {
            root: self.root@,
            abort_on_error: self.abort_on_error,
            global_defines: defs_view(self.global_defines),
            all_defines: defs_view(self.all_defines),
            all_incdirs: strs_view(self.all_incdirs),
            all_files: strs_view(self.all_files),
            srcs: srcs_view(self.srcs),
            all_verilog: strs_view(self.all_verilog),
            all_vhdl: strs_view(self.all_vhdl),
            vlog_args: strs_view(self.vlog_args),
            vcom_args: strs_view(self.vcom_args),
            vlogan_bin: self.vlogan_bin@,
            vhdlan_bin: self.vhdlan_bin@,
            relativize_path: self.relativize_path,
            compilation_mode: self.compilation_mode@,
            vivado_filesets: strs_view(self.vivado_filesets),
        }
    }
}

/// The define a target name contributes: `TARGET_<NAME>` uppercased, no
/// value.
pub open spec fn spec_target_define(t: Seq<char>) -> (Seq<char>, Option<Seq<char>>) {
    ("TARGET_"@ + upper_of(t), None)
}

/// The defines the active target names contribute.
pub open spec fn spec_target_defines(ts: Seq<Seq<char>>) -> Seq<(Seq<char>, Option<Seq<char>>)> {
    ts.map_values(|t: Seq<char>| spec_target_define(t))
}

/// The global define list: one define per active target name plus the
/// command-line defines, sorted by name for determinism.
pub open spec fn spec_global_defines(
    ts: Seq<Seq<char>>,
    cli: Seq<(Seq<char>, Option<Seq<char>>)>,
) -> Seq<(Seq<char>, Option<Seq<char>>)> {
    spec_sort_defines(spec_target_defines(ts) + cli)
}

/// All defines contributed by the flattened groups, in order.
pub open spec fn groups_defines(gs: Seq<GroupV>) -> Seq<(Seq<char>, Option<Seq<char>>)>
    decreases gs.len(),
{
    if gs.len() == 0 {
        Seq::empty()
    } else {
        gs.first().defines + groups_defines(gs.drop_first())
    }
}

/// All include directories contributed by the flattened groups, in order.
pub open spec fn groups_incdirs(gs: Seq<GroupV>) -> Seq<Seq<char>>
    decreases gs.len(),
{
    if gs.len() == 0 {
        Seq::empty()
    } else {
        gs.first().incdirs() + groups_incdirs(gs.drop_first())
    }
}

/// The paths of the plain file entries of a file sequence.
pub open spec fn plain_paths(files: Seq<FileV>) -> Seq<Seq<char>>
    decreases files.len(),
{
    if files.len() == 0 {
        Seq::empty()
    } else {
        let rest = plain_paths(files.drop_first());
        match files.first() {
            FileV::File(p) => seq![p] + rest,
            FileV::Group(_) => rest,
        }
    }
}

/// All plain file paths of the flattened groups, in order.
pub open spec fn groups_paths(gs: Seq<GroupV>) -> Seq<Seq<char>>
    decreases gs.len(),
{
    if gs.len() == 0 {
        Seq::empty()
    } else {
        plain_paths(gs.first().files) + groups_paths(gs.drop_first())
    }
}

/// The display name of a language category.
pub open spec fn spec_type_name(t: SourceType) -> Seq<char> {
    match t {
        SourceType::Verilog => "verilog"@,
        SourceType::Vhdl => "vhdl"@,
    }
}

/// The per-batch entries of one group: each batch carries the global
/// defines with the group's own appended (concatenated, not merged), the
/// group's include directories, and the batch's files.
pub open spec fn spec_batches_ctx(
    g: GroupV,
    global: Seq<(Seq<char>, Option<Seq<char>>)>,
) -> Seq<BatchCtxV> {
    spec_batches(g.files).map_values(
        |b: BatchV| BatchCtxV {
            defines: global + g.defines,
            incdirs: g.incdirs(),
            files: b.files,
            file_type: spec_type_name(b.file_type),
        },
    )
}

/// The per-batch entries across the flattened groups, in order.
pub open spec fn groups_batches(
    gs: Seq<GroupV>,
    global: Seq<(Seq<char>, Option<Seq<char>>)>,
) -> Seq<BatchCtxV>
    decreases gs.len(),
{
    if gs.len() == 0 {
        Seq::empty()
    } else {
        spec_batches_ctx(gs.first(), global) + groups_batches(gs.drop_first(), global)
    }
}

/// The files of all batches of one language, in order.
pub open spec fn files_of_type(srcs: Seq<BatchCtxV>, ty: Seq<char>) -> Seq<Seq<char>>
    decreases srcs.len(),
{
    if srcs.len() == 0 {
        Seq::empty()
    } else {
        let rest = files_of_type(srcs.drop_first(), ty);
        if srcs.first().file_type == ty {
            srcs.first().files + rest
        } else {
            rest
        }
    }
}

/// The display name of a compilation mode.
pub open spec fn spec_mode_name(m: CompilationMode) -> Seq<char> {
    match m {
        CompilationMode::Separate => "separate"@,
        CompilationMode::Common => "common"@,
    }
}

/// The fileset suffixes a backend loops over.
pub open spec fn spec_vivado_filesets(no_simset: bool) -> Seq<Seq<char>> {
    if no_simset {
        seq![""@]
    } else {
        seq![""@, " -simset"@]
    }
}

/// The assembled context, before rendering.
pub open spec fn spec_assemble(
    root: Seq<char>,
    ts: Seq<Seq<char>>,
    cli: Seq<(Seq<char>, Option<Seq<char>>)>,
    o: OptsV,
    gs: Seq<GroupV>,
) -> ContextV {
    let global = spec_global_defines(ts, cli);
    let srcs_all = groups_batches(gs, global);
    ContextV {
        root: root,
        abort_on_error: o.abort_on_error,
        global_defines: global,
        all_defines: if !o.only_includes && !o.only_sources {
            global + groups_defines(gs)
        } else {
            Seq::empty()
        },
        all_incdirs: if !o.only_defines && !o.only_sources {
            dedup_first(groups_incdirs(gs))
        } else {
            Seq::empty()
        },
        all_files: if !o.only_defines && !o.only_includes {
            dedup_first(groups_paths(gs))
        } else {
            Seq::empty()
        },
        srcs: if !o.only_defines && !o.only_includes {
            srcs_all
        } else {
            Seq::empty()
        },
        all_verilog: if !o.only_defines && !o.only_includes {
            dedup_first(files_of_type(srcs_all, "verilog"@))
        } else {
            Seq::empty()
        },
        all_vhdl: if !o.only_defines && !o.only_includes {
            dedup_first(files_of_type(srcs_all, "vhdl"@))
        } else {
            Seq::empty()
        },
        vlog_args: o.vlog_args,
        vcom_args: o.vcom_args,
        vlogan_bin: o.vlogan_bin,
        vhdlan_bin: o.vhdlan_bin,
        relativize_path: o.relative_path,
        compilation_mode: spec_mode_name(o.compilation_mode),
        vivado_filesets: spec_vivado_filesets(o.no_simset),
    }
}

proof fn lemma_groups_defines_snoc(gs: Seq<GroupV>, g: GroupV)
    ensures
        groups_defines(gs.push(g)) == groups_defines(gs) + g.defines,
    decreases gs.len(),
{
    let pushed = gs.push(g);
    assert(groups_defines(pushed) == pushed.first().defines + groups_defines(
        pushed.drop_first()));
    if gs.len() == 0 {
        assert(pushed.first() == g);
        assert(pushed.drop_first() =~= Seq::<GroupV>::empty());
        assert(groups_defines(Seq::<GroupV>::empty()) == Seq::<(
            Seq<char>,
            Option<Seq<char>>,
        )>::empty());
        assert(g.defines + Seq::<(Seq<char>, Option<Seq<char>>)>::empty() =~= g.defines);
        assert(groups_defines(gs) + g.defines =~= g.defines);
    } else {
        assert(pushed.first() == gs.first());
        assert(pushed.drop_first() =~= gs.drop_first().push(g));
        lemma_groups_defines_snoc(gs.drop_first(), g);
        assert(groups_defines(gs) == gs.first().defines + groups_defines(gs.drop_first()));
        assert(gs.first().defines + (groups_defines(gs.drop_first()) + g.defines)
            =~= (gs.first().defines + groups_defines(gs.drop_first())) + g.defines);
    }
}

proof fn lemma_groups_incdirs_snoc(gs: Seq<GroupV>, g: GroupV)
    ensures
        groups_incdirs(gs.push(g)) == groups_incdirs(gs) + g.incdirs(),
    decreases gs.len(),
{
    let pushed = gs.push(g);
    assert(groups_incdirs(pushed) == pushed.first().incdirs() + groups_incdirs(
        pushed.drop_first()));
    if gs.len() == 0 {
        assert(pushed.first() == g);
        assert(pushed.drop_first() =~= Seq::<GroupV>::empty());
        assert(groups_incdirs(Seq::<GroupV>::empty()) == Seq::<Seq<char>>::empty());
        assert(g.incdirs() + Seq::<Seq<char>>::empty() =~= g.incdirs());
        assert(groups_incdirs(gs) + g.incdirs() =~= g.incdirs());
    } else {
        assert(pushed.first() == gs.first());
        assert(pushed.drop_first() =~= gs.drop_first().push(g));
        lemma_groups_incdirs_snoc(gs.drop_first(), g);
        assert(groups_incdirs(gs) == gs.first().incdirs() + groups_incdirs(gs.drop_first()));
        assert(gs.first().incdirs() + (groups_incdirs(gs.drop_first()) + g.incdirs())
            =~= (gs.first().incdirs() + groups_incdirs(gs.drop_first())) + g.incdirs());
    }
}

proof fn lemma_groups_paths_snoc(gs: Seq<GroupV>, g: GroupV)
    ensures
        groups_paths(gs.push(g)) == groups_paths(gs) + plain_paths(g.files),
    decreases gs.len(),
{
    let pushed = gs.push(g);
    assert(groups_paths(pushed) == plain_paths(pushed.first().files) + groups_paths(
        pushed.drop_first()));
    if gs.len() == 0 {
        assert(pushed.first() == g);
        assert(pushed.drop_first() =~= Seq::<GroupV>::empty());
        assert(groups_paths(Seq::<GroupV>::empty()) == Seq::<Seq<char>>::empty());
        assert(plain_paths(g.files) + Seq::<Seq<char>>::empty() =~= plain_paths(g.files));
        assert(groups_paths(gs) + plain_paths(g.files) =~= plain_paths(g.files));
    } else {
        assert(pushed.first() == gs.first());
        assert(pushed.drop_first() =~= gs.drop_first().push(g));
        lemma_groups_paths_snoc(gs.drop_first(), g);
        assert(groups_paths(gs) == plain_paths(gs.first().files) + groups_paths(
            gs.drop_first()));
        assert(plain_paths(gs.first().files) + (groups_paths(gs.drop_first()) + plain_paths(
            g.files)) =~= (plain_paths(gs.first().files) + groups_paths(gs.drop_first()))
            + plain_paths(g.files));
    }
}

proof fn lemma_groups_batches_snoc(
    gs: Seq<GroupV>,
    g: GroupV,
    global: Seq<(Seq<char>, Option<Seq<char>>)>,
)
    ensures
        groups_batches(gs.push(g), global) == groups_batches(gs, global) + spec_batches_ctx(
            g,
            global,
        ),
    decreases gs.len(),
{
    let pushed = gs.push(g);
    assert(groups_batches(pushed, global) == spec_batches_ctx(pushed.first(), global)
        + groups_batches(pushed.drop_first(), global));
    if gs.len() == 0 {
        assert(pushed.first() == g);
        assert(pushed.drop_first() =~= Seq::<GroupV>::empty());
        assert(groups_batches(Seq::<GroupV>::empty(), global) == Seq::<BatchCtxV>::empty());
        assert(spec_batches_ctx(g, global) + Seq::<BatchCtxV>::empty() =~= spec_batches_ctx(
            g, global));
        assert(groups_batches(gs, global) + spec_batches_ctx(g, global) =~= spec_batches_ctx(
            g, global));
    } else {
        assert(pushed.first() == gs.first());
        assert(pushed.drop_first() =~= gs.drop_first().push(g));
        lemma_groups_batches_snoc(gs.drop_first(), g, global);
        assert(groups_batches(gs, global) == spec_batches_ctx(gs.first(), global)
            + groups_batches(gs.drop_first(), global));
        assert(spec_batches_ctx(gs.first(), global) + (groups_batches(gs.drop_first(), global)
            + spec_batches_ctx(g, global)) =~= (spec_batches_ctx(gs.first(), global)
            + groups_batches(gs.drop_first(), global)) + spec_batches_ctx(g, global));
    }
}

proof fn lemma_files_of_type_snoc(srcs: Seq<BatchCtxV>, b: BatchCtxV, ty: Seq<char>)
    ensures
        files_of_type(srcs.push(b), ty) == files_of_type(srcs, ty) + if b.file_type == ty {
            b.files
        } else {
            Seq::empty()
        },
    decreases srcs.len(),
{
    let tailpart: Seq<Seq<char>> = if b.file_type == ty {
        b.files
    } else {
        Seq::empty()
    };
    let pushed = srcs.push(b);
    if srcs.len() == 0 {
        assert(pushed.first() == b);
        assert(pushed.drop_first() =~= Seq::<BatchCtxV>::empty());
        assert(files_of_type(Seq::<BatchCtxV>::empty(), ty) == Seq::<Seq<char>>::empty());
        if b.file_type == ty {
            assert(files_of_type(pushed, ty) == b.files + files_of_type(
                pushed.drop_first(), ty));
            assert(b.files + Seq::<Seq<char>>::empty() =~= b.files);
        } else {
            assert(files_of_type(pushed, ty) == files_of_type(pushed.drop_first(), ty));
        }
        assert(files_of_type(srcs, ty) + tailpart =~= tailpart);
    } else {
        assert(pushed.first() == srcs.first());
        assert(pushed.drop_first() =~= srcs.drop_first().push(b));
        lemma_files_of_type_snoc(srcs.drop_first(), b, ty);
        if srcs.first().file_type == ty {
            assert(files_of_type(pushed, ty) == srcs.first().files + files_of_type(
                srcs.drop_first().push(b), ty));
            assert(files_of_type(srcs, ty) == srcs.first().files + files_of_type(
                srcs.drop_first(), ty));
            assert(srcs.first().files + (files_of_type(srcs.drop_first(), ty) + tailpart)
                =~= (srcs.first().files + files_of_type(srcs.drop_first(), ty)) + tailpart);
        } else {
            assert(files_of_type(pushed, ty) == files_of_type(srcs.drop_first().push(b), ty));
            assert(files_of_type(srcs, ty) == files_of_type(srcs.drop_first(), ty));
        }
    }
}

/// Define precedence: a batch's effective define list is the global define
/// list followed by the owning group's defines — both are present, in that
/// order, and neither is dropped or merged away.
pub proof fn lemma_define_precedence(
    g: GroupV,
    global: Seq<(Seq<char>, Option<Seq<char>>)>,
    j: int,
)
    requires
        0 <= j < spec_batches_ctx(g, global).len(),
    ensures
        spec_batches_ctx(g, global)[j].defines == global + g.defines,
        forall|k: int| 0 <= k < global.len() ==> spec_batches_ctx(g, global)[j].defines[k]
            == global[k],
        forall|k: int| 0 <= k < g.defines.len() ==> spec_batches_ctx(g, global)[j].defines[
            global.len() + k
        ] == g.defines[k],
{
}

/// Partial-context isolation: with only the define section selected, the
/// assembled include-directory and file aggregates are empty, whatever the
/// input.
pub proof fn lemma_partial_context_isolation(
    root: Seq<char>,
    ts: Seq<Seq<char>>,
    cli: Seq<(Seq<char>, Option<Seq<char>>)>,
    o: OptsV,
    gs: Seq<GroupV>,
)
    requires
        o.only_defines,
    ensures
        spec_assemble(root, ts, cli, o, gs).all_incdirs == Seq::<Seq<char>>::empty(),
        spec_assemble(root, ts, cli, o, gs).all_files == Seq::<Seq<char>>::empty(),
        spec_assemble(root, ts, cli, o, gs).srcs == Seq::<BatchCtxV>::empty(),
        spec_assemble(root, ts, cli, o, gs).all_verilog == Seq::<Seq<char>>::empty(),
        spec_assemble(root, ts, cli, o, gs).all_vhdl == Seq::<Seq<char>>::empty(),
{
}

/// The defines contributed by the active target names.
fn target_defines(targets: &TargetSet) -> (r: Vec<(String, Option<String>)>)
    ensures
        defs_view(r) == spec_target_defines(targets.view()),
{
    let ghost tv = targets.view();
    let ghost mapped = spec_target_defines(tv);
    let mut out: Vec<(String, Option<String>)> = Vec::new();
    let mut i: usize = 0;
    proof {
        assert(defs_view(out) =~= mapped.take(0));
    }
    while i < targets.names.len()
        invariant
            0 <= i <= targets.names.len(),
            tv.len() == targets.names@.len(),
            defs_view(out) == mapped.take(i as int),
        decreases targets.names.len() - i,
    {
        let ghost prev = defs_view(out);
        let upper = to_uppercase(targets.names[i].as_str());
        let mut name = "TARGET_".to_owned();
        name.append(upper.as_str());
        out.push((name, None));
        proof {
            assert(mapped[i as int] == spec_target_define(tv[i as int]));
            assert(def_view((name, None::<String>)) == mapped[i as int]);
            assert(defs_view(out) =~= prev.push(mapped[i as int]));
            assert(mapped.take(i + 1) =~= mapped.take(i as int).push(mapped[i as int]));
        }
        i += 1;
    }
    proof {
        assert(mapped.take(mapped.len() as int) =~= mapped);
    }
    out
}

/// Concatenates two define lists.
pub fn concat_defs(
    a: &Vec<(String, Option<String>)>,
    b: &Vec<(String, Option<String>)>,
) -> (r: Vec<(String, Option<String>)>)
    ensures
        defs_view(r) == defs_view(*a) + defs_view(*b),
{
    let mut out = crate::model::clone_defines(a);
    let mut i: usize = 0;
    while i < b.len()
        invariant
            0 <= i <= b.len(),
            out@ == a@ + b@.take(i as int),
        decreases b.len() - i,
    {
        let name = b[i].0.clone();
        let value = clone_opt_string(&b[i].1);
        out.push((name, value));
        proof {
            assert((name, value) == b@[i as int]);
            assert(out@ =~= a@ + b@.take(i + 1));
        }
        i += 1;
    }
    proof {
        assert(a@ + b@.take(0) =~= a@);
        assert(a@ + b@.take(b@.len() as int) =~= a@ + b@);
        assert(defs_view(out) =~= defs_view(*a) + defs_view(*b));
    }
    out
}

/// The paths of the plain file entries of one group.
fn group_plain_paths(g: &SourceGroup) -> (r: Vec<String>)
    ensures
        strs_view(r) == plain_paths(g.view().files),
{
    let ghost fullv = g.view().files;
    proof {
        crate::model::lemma_files_seq_view(g.files@);
        assert(fullv =~= crate::model::files_seq_view(g.files@));
        assert(fullv.skip(0) =~= fullv);
    }
    let mut out: Vec<String> = Vec::new();
    let mut i: usize = 0;
    proof {
        assert(strs_view(out) + plain_paths(fullv) =~= plain_paths(fullv));
    }
    while i < g.files.len()
        invariant
            0 <= i <= g.files.len(),
            fullv.len() == g.files@.len(),
            forall|k: int| 0 <= k < g.files@.len() ==> fullv[k] == g.files@[k].view(),
            plain_paths(fullv) == strs_view(out) + plain_paths(fullv.skip(i as int)),
        decreases g.files.len() - i,
    {
        let ghost rem = fullv.skip(i as int);
        proof {
            assert(rem.first() == fullv[i as int]);
            assert(rem.drop_first() =~= fullv.skip(i + 1));
        }
        match &g.files[i] {
            crate::model::SourceFile::File(p) => {
                let ghost prev = strs_view(out);
                out.push(p.clone());
                proof {
                    assert(strs_view(out) =~= prev.push(filev_path(rem.first())));
                    assert(prev + (seq![filev_path(rem.first())] + plain_paths(fullv.skip(
                        i + 1))) =~= strs_view(out) + plain_paths(fullv.skip(i + 1)));
                }
            },
            crate::model::SourceFile::Group(_) => {},
        }
        i += 1;
    }
    proof {
        assert(fullv.skip(fullv.len() as int) =~= Seq::<FileV>::empty());
        assert(strs_view(out) + Seq::<Seq<char>>::empty() =~= strs_view(out));
    }
    out
}

/// Assembles the template context from the session root, the active
/// targets, the command-line defines, the emission options and the
/// flattened groups.
#[verifier::rlimit(60)]
pub fn assemble_context(
    root: &str,
    targets: &TargetSet,
    cli_defines: &Vec<(String, Option<String>)>,
    opts: &EmitOptions,
    groups: &Vec<SourceGroup>,
) -> (r: ScriptContext)
    ensures
        r.view() == spec_assemble(
            root@,
            targets.view(),
            defs_view(*cli_defines),
            opts.view(),
            groups_view(*groups),
        ),
{
    let ghost gsv = groups_view(*groups);
    let tdefs = target_defines(targets);
    let raw = concat_defs(&tdefs, cli_defines);
    let global = sort_defines(&raw);
    let ghost globalv = defs_view(global);
    proof {
        assert(globalv == spec_global_defines(targets.view(), defs_view(*cli_defines)));
        assert(gsv.len() == groups@.len());
        assert(forall|k: int| 0 <= k < groups@.len() ==> gsv[k] == groups@[k].view());
    }
    // All defines: the global list, then each group's own, concatenated.
    let mut gd: Vec<(String, Option<String>)> = Vec::new();
    let mut i: usize = 0;
    proof {
        assert(defs_view(gd) =~= groups_defines(gsv.take(0)));
    }
    while i < groups.len()
        invariant
            0 <= i <= groups.len(),
            defs_view(gd) == groups_defines(gsv.take(i as int)),
        decreases groups.len() - i,
    {
        proof {
            assert(gsv.take(i + 1) =~= gsv.take(i as int).push(gsv[i as int]));
            lemma_groups_defines_snoc(gsv.take(i as int), gsv[i as int]);
        }
        gd = concat_defs(&gd, &groups[i].defines);
        i += 1;
    }
    proof {
        assert(gsv.take(gsv.len() as int) =~= gsv);
    }
    let all_defines_full = concat_defs(&global, &gd);
    // All include directories, first occurrence kept.
    let mut dirs: Vec<String> = Vec::new();
    let mut i: usize = 0;
    proof {
        assert(strs_view(dirs) =~= groups_incdirs(gsv.take(0)));
    }
    while i < groups.len()
        invariant
            0 <= i <= groups.len(),
            strs_view(dirs) == groups_incdirs(gsv.take(i as int)),
        decreases groups.len() - i,
    {
        proof {
            assert(gsv.take(i + 1) =~= gsv.take(i as int).push(gsv[i as int]));
            lemma_groups_incdirs_snoc(gsv.take(i as int), gsv[i as int]);
        }
        let own = crate::flatten::concat_strs(&groups[i].include_dirs, &groups[i].export_incdirs);
        proof {
            assert(strs_view(own) =~= gsv[i as int].incdirs());
        }
        dirs = crate::flatten::concat_strs(&dirs, &own);
        proof {
            assert(strs_view(dirs) =~= groups_incdirs(gsv.take(i as int)) + gsv[
                i as int].incdirs());
        }
        i += 1;
    }
    proof {
        assert(gsv.take(gsv.len() as int) =~= gsv);
    }
    let all_incdirs_full = dedup_strs(&dirs);
    // All plain file paths, first occurrence kept.
    let mut paths: Vec<String> = Vec::new();
    let mut i: usize = 0;
    proof {
        assert(strs_view(paths) =~= groups_paths(gsv.take(0)));
    }
    while i < groups.len()
        invariant
            0 <= i <= groups.len(),
            strs_view(paths) == groups_paths(gsv.take(i as int)),
        decreases groups.len() - i,
    {
        proof {
            assert(gsv.take(i + 1) =~= gsv.take(i as int).push(gsv[i as int]));
            lemma_groups_paths_snoc(gsv.take(i as int), gsv[i as int]);
        }
        let own = group_plain_paths(&groups[i]);
        paths = crate::flatten::concat_strs(&paths, &own);
        proof {
            assert(strs_view(paths) =~= groups_paths(gsv.take(i as int)) + plain_paths(gsv[
                i as int].files));
        }
        i += 1;
    }
    proof {
        assert(gsv.take(gsv.len() as int) =~= gsv);
    }
    let all_files_full = dedup_strs(&paths);
    // The per-batch entries.
    let mut srcs_full: Vec<BatchContext> = Vec::new();
    let mut i: usize = 0;
    proof {
        assert(srcs_view(srcs_full) =~= groups_batches(gsv.take(0), globalv));
    }
    while i < groups.len()
        invariant
            0 <= i <= groups.len(),
            srcs_view(srcs_full) == groups_batches(gsv.take(i as int), globalv),
            globalv == defs_view(global),
        decreases groups.len() - i,
    {
        proof {
            assert(gsv.take(i + 1) =~= gsv.take(i as int).push(gsv[i as int]));
            lemma_groups_batches_snoc(gsv.take(i as int), gsv[i as int], globalv);
        }
        let ghost gv = gsv[i as int];
        let ghost ctxs = spec_batches_ctx(gv, globalv);
        let batches = separate_files_in_group(&groups[i]);
        let ghost bview = crate::batch::batches_view(batches);
        proof {
            assert(bview == spec_batches(gv.files));
            assert(ctxs.len() == bview.len());
        }
        let incdirs_g = crate::flatten::concat_strs(
            &groups[i].include_dirs,
            &groups[i].export_incdirs,
        );
        proof {
            assert(strs_view(incdirs_g) =~= gv.incdirs());
        }
        let ghost before = srcs_view(srcs_full);
        let mut j: usize = 0;
        proof {
            assert(before + ctxs.take(0) =~= before);
        }
        while j < batches.len()
            invariant
                0 <= j <= batches.len(),
                batches@.len() == bview.len(),
                bview.len() == ctxs.len(),
                srcs_view(srcs_full) == before + ctxs.take(j as int),
            decreases batches.len() - j,
        {
            let ghost prev = srcs_view(srcs_full);
            let file_type = match batches[j].0 {
                SourceType::Verilog => "verilog".to_owned(),
                SourceType::Vhdl => "vhdl".to_owned(),
            };
            let entry = BatchContext {
                defines: concat_defs(&global, &groups[i].defines),
                incdirs: clone_string_vec(&incdirs_g),
                files: clone_string_vec(&batches[j].1),
                file_type: file_type,
            };
            proof {
                assert(bview[j as int] == BatchV {
                    file_type: batches@[j as int].0,
                    files: strs_view(batches@[j as int].1),
                });
                assert(ctxs[j as int] == BatchCtxV {
                    defines: globalv + gv.defines,
                    incdirs: gv.incdirs(),
                    files: bview[j as int].files,
                    file_type: spec_type_name(bview[j as int].file_type),
                });
                assert(entry.view() =~= ctxs[j as int]);
            }
            srcs_full.push(entry);
            proof {
                assert(srcs_view(srcs_full) =~= prev.push(ctxs[j as int]));
                assert(ctxs.take(j + 1) =~= ctxs.take(j as int).push(ctxs[j as int]));
            }
            j += 1;
        }
        proof {
            assert(ctxs.take(ctxs.len() as int) =~= ctxs);
        }
        i += 1;
    }
    proof {
        assert(gsv.take(gsv.len() as int) =~= gsv);
    }
    let ghost srcs_allv = srcs_view(srcs_full);
    // Files by language across the batches, first occurrence kept.
    let mut ver: Vec<String> = Vec::new();
    let mut vhd: Vec<String> = Vec::new();
    let mut i: usize = 0;
    proof {
        assert(strs_view(ver) =~= files_of_type(srcs_allv.take(0), "verilog"@));
        assert(strs_view(vhd) =~= files_of_type(srcs_allv.take(0), "vhdl"@));
    }
    while i < srcs_full.len()
        invariant
            0 <= i <= srcs_full.len(),
            srcs_allv == srcs_view(srcs_full),
            srcs_allv.len() == srcs_full@.len(),
            strs_view(ver) == files_of_type(srcs_allv.take(i as int), "verilog"@),
            strs_view(vhd) == files_of_type(srcs_allv.take(i as int), "vhdl"@),
        decreases srcs_full.len() - i,
    {
        proof {
            assert(srcs_allv.take(i + 1) =~= srcs_allv.take(i as int).push(srcs_allv[
                i as int]));
            lemma_files_of_type_snoc(srcs_allv.take(i as int), srcs_allv[i as int], "verilog"@);
            lemma_files_of_type_snoc(srcs_allv.take(i as int), srcs_allv[i as int], "vhdl"@);
            assert(srcs_allv[i as int] == srcs_full@[i as int].view());
        }
        if crate::model::str_eq(srcs_full[i].file_type.as_str(), "verilog") {
            ver = crate::flatten::concat_strs(&ver, &srcs_full[i].files);
        } else {
            proof {
                assert(strs_view(ver) + Seq::<Seq<char>>::empty() =~= strs_view(ver));
            }
        }
        if crate::model::str_eq(srcs_full[i].file_type.as_str(), "vhdl") {
            vhd = crate::flatten::concat_strs(&vhd, &srcs_full[i].files);
        } else {
            proof {
                assert(strs_view(vhd) + Seq::<Seq<char>>::empty() =~= strs_view(vhd));
            }
        }
        i += 1;
    }
    proof {
        assert(srcs_allv.take(srcs_allv.len() as int) =~= srcs_allv);
    }
    let all_verilog_full = dedup_strs(&ver);
    let all_vhdl_full = dedup_strs(&vhd);
    // Partial-context flags zero out the non-selected aggregates.
    let use_defs = !opts.only_includes && !opts.only_sources;
    let use_dirs = !opts.only_defines && !opts.only_sources;
    let use_files = !opts.only_defines && !opts.only_includes;
    let mut filesets: Vec<String> = Vec::new();
    filesets.push("".to_owned());
    if !opts.no_simset {
        filesets.push(" -simset".to_owned());
    }
    let r = ScriptContext {
        root: root.to_owned(),
        abort_on_error: opts.abort_on_error,
        global_defines: global,
        all_defines: if use_defs {
            all_defines_full
        } else {
            Vec::new()
        },
        all_incdirs: if use_dirs {
            all_incdirs_full
        } else {
            Vec::new()
        },
        all_files: if use_files {
            all_files_full
        } else {
            Vec::new()
        },
        srcs: if use_files {
            srcs_full
        } else {
            Vec::new()
        },
        all_verilog: if use_files {
            all_verilog_full
        } else {
            Vec::new()
        },
        all_vhdl: if use_files {
            all_vhdl_full
        } else {
            Vec::new()
        },
        vlog_args: clone_string_vec(&opts.vlog_args),
        vcom_args: clone_string_vec(&opts.vcom_args),
        vlogan_bin: opts.vlogan_bin.clone(),
        vhdlan_bin: opts.vhdlan_bin.clone(),
        relativize_path: opts.relative_path,
        compilation_mode: match opts.compilation_mode {
            CompilationMode::Separate => "separate".to_owned(),
            CompilationMode::Common => "common".to_owned(),
        },
        vivado_filesets: filesets,
    };
    proof {
        assert(strs_view(r.vivado_filesets) =~= spec_vivado_filesets(opts.no_simset));
        if !use_defs {
            assert(defs_view(r.all_defines) =~= Seq::<(Seq<char>, Option<Seq<char>>)>::empty());
        }
        if !use_dirs {
            assert(strs_view(r.all_incdirs) =~= Seq::<Seq<char>>::empty());
        }
        if !use_files {
            assert(strs_view(r.all_files) =~= Seq::<Seq<char>>::empty());
            assert(srcs_view(r.srcs) =~= Seq::<BatchCtxV>::empty());
            assert(strs_view(r.all_verilog) =~= Seq::<Seq<char>>::empty());
            assert(strs_view(r.all_vhdl) =~= Seq::<Seq<char>>::empty());
        }
        assert(r.view() =~= spec_assemble(
            root@,
            targets.view(),
            defs_view(*cli_defines),
            opts.view(),
            gsv,
        ));
    }
    r
}

} // verus!
