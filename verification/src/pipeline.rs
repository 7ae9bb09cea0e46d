//! The source-group transformation pipeline: filter by target, filter by
//! package, flatten, and assemble the template context.
//!
//! Every stage is a pure function of its input; the context the pipeline
//! returns is pinned, value for value, by `spec_pipeline`, so two runs on
//! the same input and flags assemble the same context.

use vstd::prelude::*;
use crate::model::{GroupV, SourceGroup, TargetSet, dedup_first, defs_view, strs_view};
use crate::filter::{spec_fallback_group, spec_filter_targets};
use crate::packages::{spec_edges, spec_filter_packages, spec_keep_set};
use crate::flatten::{groups_view, spec_flatten};
use crate::format::{EmitOptions, OptsV, ScriptFormat, default_targets, spec_default_targets};
use crate::context::{ContextV, ScriptContext, assemble_context, spec_assemble};

verus! {

/// The package-filter request: lowercased allow and deny lists, whether the
/// dependency closure is suppressed, and whether the filter runs at all.
pub struct PackageSelection {
    pub allow: Vec<String>,
    pub deny: Vec<String>,
    pub no_deps: bool,
    pub active: bool,
}

/// The requested target set: the user's names, then the format's implied
/// defaults, first occurrence kept.
pub open spec fn spec_requested_targets(
    user: Seq<Seq<char>>,
    format: ScriptFormat,
    no_default_target: bool,
) -> Seq<Seq<char>> {
    let implied: Seq<Seq<char>> = if no_default_target {
        Seq::empty()
    } else {
        spec_default_targets(format)
    };
    dedup_first(user + implied)
}

/// The tree after the target filter, the fallback group standing in for a
/// fully pruned tree.
pub open spec fn spec_target_stage(tree: GroupV, ts: Seq<Seq<char>>) -> GroupV {
    match spec_filter_targets(tree, ts) {
        Some(g) => g,
        None => spec_fallback_group(),
    }
}

/// The tree after the package filter, when one was requested.
pub open spec fn spec_package_stage(
    t1: GroupV,
    allow: Seq<Seq<char>>,
    deny: Seq<Seq<char>>,
    no_deps: bool,
    active: bool,
) -> GroupV {
    if active {
        let keep = spec_keep_set(spec_edges(t1), allow, no_deps);
        match spec_filter_packages(t1, keep, deny) {
            Some(g) => g,
            None => spec_fallback_group(),
        }
    } else {
        t1
    }
}

/// The whole pipeline: target filter, package filter, flattening, context
/// assembly.
pub open spec fn spec_pipeline(
    tree: GroupV,
    root: Seq<char>,
    user_targets: Seq<Seq<char>>,
    format: ScriptFormat,
    no_default_target: bool,
    cli: Seq<(Seq<char>, Option<Seq<char>>)>,
    o: OptsV,
    allow: Seq<Seq<char>>,
    deny: Seq<Seq<char>>,
    no_deps: bool,
    pkg_active: bool,
) -> ContextV {
    let ts = spec_requested_targets(user_targets, format, no_default_target);
    let t1 = spec_target_stage(tree, ts);
    let t2 = spec_package_stage(t1, allow, deny, no_deps, pkg_active);
    spec_assemble(root, ts, cli, o, spec_flatten(t2))
}

/// Runs the pipeline on an immutable tree and assembles the context.
pub fn generate_context(
    tree: &SourceGroup,
    root: &str,
    user_targets: &Vec<String>,
    format: ScriptFormat,
    no_default_target: bool,
    cli_defines: &Vec<(String, Option<String>)>,
    opts: &EmitOptions,
    pkg: &PackageSelection,
) -> (r: ScriptContext)
    ensures
        r.view() == spec_pipeline(
            tree.view(),
            root@,
            strs_view(*user_targets),
            format,
            no_default_target,
            defs_view(*cli_defines),
            opts.view(),
            strs_view(pkg.allow),
            strs_view(pkg.deny),
            pkg.no_deps,
            pkg.active,
        ),
{
    let implied = default_targets(format, no_default_target);
    let all_names = crate::flatten::concat_strs(user_targets, &implied);
    let targets = TargetSet::new(all_names);
    proof {
        assert(strs_view(all_names) =~= strs_view(*user_targets) + strs_view(implied));
        assert(targets.view() == spec_requested_targets(
            strs_view(*user_targets),
            format,
            no_default_target,
        ));
    }
    let t1 = tree.filter_targets_or_fallback(&targets);
    let t2 = if pkg.active {
        let keep = t1.get_package_list(&pkg.allow, pkg.no_deps);
        t1.filter_packages_or_fallback(&keep, &pkg.deny)
    } else {
        t1
    };
    let flat = t2.flatten();
    assemble_context(root, &targets, cli_defines, opts, &flat)
}

/// Idempotence: the pipeline is a function of its input alone, so two
/// contexts assembled from the same immutable tree and the same flags are
/// equal, value for value.
pub proof fn lemma_pipeline_deterministic(
    c1: ContextV,
    c2: ContextV,
    tree: GroupV,
    root: Seq<char>,
    user_targets: Seq<Seq<char>>,
    format: ScriptFormat,
    no_default_target: bool,
    cli: Seq<(Seq<char>, Option<Seq<char>>)>,
    o: OptsV,
    allow: Seq<Seq<char>>,
    deny: Seq<Seq<char>>,
    no_deps: bool,
    pkg_active: bool,
)
    requires
        c1 == spec_pipeline(
            tree,
            root,
            user_targets,
            format,
            no_default_target,
            cli,
            o,
            allow,
            deny,
            no_deps,
            pkg_active,
        ),
        c2 == spec_pipeline(
            tree,
            root,
            user_targets,
            format,
            no_default_target,
            cli,
            o,
            allow,
            deny,
            no_deps,
            pkg_active,
        ),
    ensures
        c1 == c2,
{
}

} // verus!
