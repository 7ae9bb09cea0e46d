//! End-to-end tests: flattening, aggregation, context assembly and the
//! rendered output of the built-in templates.

use hdl_script_gen::context::assemble_context;
use hdl_script_gen::filter::fallback_group;
use hdl_script_gen::format::{CompilationMode, EmitOptions, ScriptError, ScriptFormat};
use hdl_script_gen::model::{SourceFile, SourceGroup, TargetSet, TargetSpec};
use hdl_script_gen::packages::get_package_strings;
use hdl_script_gen::pipeline::{generate_context, PackageSelection};
use hdl_script_gen::render::emit_script;

fn plain_options() -> EmitOptions {
    EmitOptions {
        vlog_args: vec![],
        vcom_args: vec![],
        only_defines: false,
        only_includes: false,
        only_sources: false,
        no_simset: false,
        abort_on_error: true,
        relative_path: false,
        compilation_mode: CompilationMode::Separate,
        vlogan_bin: "vlogan".to_string(),
        vhdlan_bin: "vhdlan".to_string(),
    }
}

fn no_packages() -> PackageSelection {
    PackageSelection { allow: vec![], deny: vec![], no_deps: false, active: false }
}

fn group(package: Option<&str>, files: Vec<SourceFile>) -> SourceGroup {
    let mut g = fallback_group();
    g.package = package.map(|p| p.to_string());
    g.files = files;
    g
}

fn file(p: &str) -> SourceFile {
    SourceFile::File(p.to_string())
}

#[test]
fn end_to_end_flist_scenario() {
    let mut tree = group(
        None,
        vec![file("/work/a.sv"), file("/work/b.sv"), file("/work/c.vhd")],
    );
    tree.defines = vec![("FOO".to_string(), None)];
    tree.target = TargetSpec::Wildcard;
    let ctx = generate_context(
        &tree,
        "/work",
        &vec![],
        ScriptFormat::Flist,
        false,
        &vec![],
        &plain_options(),
        &no_packages(),
    );
    let out = emit_script(ScriptFormat::Flist, None, &ctx).unwrap();
    assert_eq!(
        out,
        "+define+TARGET_FLIST\n+define+FOO\n/work/a.sv\n/work/b.sv\n/work/c.vhd\n"
    );
}

#[test]
fn flatten_preserves_preorder_and_merges_config() {
    let mut sub = group(Some("child"), vec![file("/w/sub/s1.sv"), file("/w/sub/s2.sv")]);
    sub.defines = vec![("A".to_string(), Some("2".to_string())), ("B".to_string(), None)];
    sub.include_dirs = vec!["/w/sub/inc".to_string()];
    let mut tree = group(
        None,
        vec![file("/w/t1.sv"), SourceFile::Group(sub), file("/w/t2.sv")],
    );
    tree.defines = vec![("A".to_string(), Some("1".to_string()))];
    tree.include_dirs = vec!["/w/inc".to_string()];
    let flat = tree.flatten();
    assert_eq!(flat.len(), 3);
    // Order: the run before the nested group, the nested group, the rest.
    assert_eq!(flat[0].files, vec![file("/w/t1.sv")]);
    assert_eq!(flat[1].files, vec![file("/w/sub/s1.sv"), file("/w/sub/s2.sv")]);
    assert_eq!(flat[2].files, vec![file("/w/t2.sv")]);
    // The parent's configuration is inherited; the child wins on collision.
    assert_eq!(flat[0].defines, vec![("A".to_string(), Some("1".to_string()))]);
    assert_eq!(
        flat[1].defines,
        vec![
            ("A".to_string(), Some("2".to_string())),
            ("B".to_string(), None)
        ]
    );
    assert_eq!(flat[0].include_dirs, vec!["/w/inc".to_string()]);
    assert_eq!(
        flat[1].include_dirs,
        vec!["/w/inc".to_string(), "/w/sub/inc".to_string()]
    );
}

#[test]
fn define_precedence_keeps_both_entries() {
    let mut tree = group(None, vec![file("/w/a.sv")]);
    tree.defines = vec![("A".to_string(), Some("2".to_string()))];
    let ctx = generate_context(
        &tree,
        "/w",
        &vec![],
        ScriptFormat::Template,
        false,
        &vec![("A".to_string(), Some("1".to_string()))],
        &plain_options(),
        &no_packages(),
    );
    assert_eq!(ctx.srcs.len(), 1);
    assert_eq!(
        ctx.srcs[0].defines,
        vec![
            ("A".to_string(), Some("1".to_string())),
            ("A".to_string(), Some("2".to_string()))
        ]
    );
}

#[test]
fn pipeline_is_idempotent() {
    let make_tree = || {
        let mut sub = group(Some("pkg_a"), vec![file("/w/a1.sv"), file("/w/a2.vhd")]);
        sub.export_incdirs = vec!["/w/a/inc".to_string()];
        let mut tree = group(None, vec![SourceFile::Group(sub), file("/w/top.sv")]);
        tree.defines = vec![("X".to_string(), None)];
        tree
    };
    let run = || {
        let ctx = generate_context(
            &make_tree(),
            "/w",
            &vec!["extra".to_string()],
            ScriptFormat::Vsim,
            false,
            &vec![("D".to_string(), Some("7".to_string()))],
            &plain_options(),
            &no_packages(),
        );
        emit_script(ScriptFormat::Vsim, None, &ctx).unwrap()
    };
    assert_eq!(run(), run());
}

#[test]
fn only_defines_zeroes_other_aggregates() {
    let mut tree = group(None, vec![file("/w/a.sv")]);
    tree.include_dirs = vec!["/w/inc".to_string()];
    let mut opts = plain_options();
    opts.only_defines = true;
    let ctx = generate_context(
        &tree,
        "/w",
        &vec![],
        ScriptFormat::Vivado,
        false,
        &vec![],
        &opts,
        &no_packages(),
    );
    assert!(ctx.all_incdirs.is_empty());
    assert!(ctx.all_files.is_empty());
    assert!(ctx.srcs.is_empty());
    assert!(ctx.all_verilog.is_empty());
    assert!(ctx.all_vhdl.is_empty());
    assert!(!ctx.all_defines.is_empty());
}

#[test]
fn target_names_become_uppercased_defines() {
    let tree = group(None, vec![file("/w/a.sv")]);
    let ctx = generate_context(
        &tree,
        "/w",
        &vec!["fpga".to_string()],
        ScriptFormat::Template,
        false,
        &vec![],
        &plain_options(),
        &no_packages(),
    );
    assert_eq!(ctx.global_defines, vec![("TARGET_FPGA".to_string(), None)]);
}

#[test]
fn aggregates_deduplicate_first_seen() {
    let mut sub = group(Some("p"), vec![file("/w/a.sv"), file("/w/shared.sv")]);
    sub.include_dirs = vec!["/w/inc".to_string()];
    let mut tree = group(None, vec![SourceFile::Group(sub), file("/w/shared.sv")]);
    tree.include_dirs = vec!["/w/inc".to_string()];
    let targets = TargetSet::new(vec![]);
    let flat = tree.flatten();
    let ctx = assemble_context("/w", &targets, &vec![], &plain_options(), &flat);
    assert_eq!(ctx.all_incdirs, vec!["/w/inc".to_string()]);
    assert_eq!(
        ctx.all_files,
        vec!["/w/a.sv".to_string(), "/w/shared.sv".to_string()]
    );
    assert_eq!(
        ctx.all_verilog,
        vec!["/w/a.sv".to_string(), "/w/shared.sv".to_string()]
    );
}

#[test]
fn package_filter_keeps_allowed_and_dependencies() {
    let inner = group(Some("depped"), vec![file("/w/d.sv")]);
    let mut mid = group(Some("Wanted"), vec![file("/w/m.sv"), SourceFile::Group(inner)]);
    mid.dependencies = vec!["depped".to_string()];
    let other = group(Some("other"), vec![file("/w/o.sv")]);
    let tree = group(None, vec![SourceFile::Group(mid), SourceFile::Group(other)]);
    let allow = get_package_strings(&vec!["WANTED".to_string()]);
    assert_eq!(allow, vec!["wanted".to_string()]);
    let keep = tree.get_package_list(&allow, false);
    assert!(keep.contains(&"wanted".to_string()));
    assert!(keep.contains(&"depped".to_string()));
    assert!(!keep.contains(&"other".to_string()));
    let filtered = tree.filter_packages(&keep, &vec![]).unwrap();
    let flat = filtered.flatten();
    let names: Vec<String> = flat.iter().map(|g| g.package.clone().unwrap()).collect();
    assert_eq!(names, vec!["Wanted".to_string(), "depped".to_string()]);
}

#[test]
fn package_filter_deny_prunes_subtree() {
    let sub = group(Some("noisy"), vec![file("/w/n.sv")]);
    let tree = group(None, vec![SourceFile::Group(sub), file("/w/keep.sv")]);
    let pkg = PackageSelection {
        allow: vec![],
        deny: vec!["noisy".to_string()],
        no_deps: false,
        active: true,
    };
    let ctx = generate_context(
        &tree,
        "/w",
        &vec![],
        ScriptFormat::Template,
        false,
        &vec![],
        &plain_options(),
        &pkg,
    );
    assert_eq!(ctx.all_files, vec!["/w/keep.sv".to_string()]);
}

#[test]
fn vsim_separate_renders_one_invocation_per_batch() {
    let tree = group(
        None,
        vec![file("/w/a.sv"), file("/w/b.vhd"), file("/w/c.sv")],
    );
    let ctx = generate_context(
        &tree,
        "/w",
        &vec![],
        ScriptFormat::Vsim,
        true,
        &vec![],
        &plain_options(),
        &no_packages(),
    );
    let out = emit_script(ScriptFormat::Vsim, None, &ctx).unwrap();
    assert_eq!(out.matches("vlog -incr -sv").count(), 2);
    assert_eq!(out.matches("vcom -2008").count(), 1);
    assert!(out.contains("$ROOT/a.sv"));
    assert!(out.contains("set ROOT \"/w\""));
}

#[test]
fn template_json_dumps_the_context() {
    let tree = group(None, vec![file("/w/a.sv")]);
    let ctx = generate_context(
        &tree,
        "/w",
        &vec![],
        ScriptFormat::TemplateJson,
        false,
        &vec![],
        &plain_options(),
        &no_packages(),
    );
    let out = emit_script(ScriptFormat::TemplateJson, None, &ctx).unwrap();
    assert!(out.contains("\"root\""));
    assert!(out.contains("\"all_files\""));
    assert!(out.contains("/w/a.sv"));
}

#[test]
fn custom_template_and_render_error() {
    let tree = group(None, vec![file("/w/a.sv")]);
    let ctx = generate_context(
        &tree,
        "/w",
        &vec![],
        ScriptFormat::Template,
        false,
        &vec![],
        &plain_options(),
        &no_packages(),
    );
    let ok = emit_script(
        ScriptFormat::Template,
        Some("files: {{ all_files | length }}"),
        &ctx,
    )
    .unwrap();
    assert_eq!(ok, "files: 1");
    let err = emit_script(ScriptFormat::Template, Some("{{ broken"), &ctx);
    match err {
        Err(ScriptError::Render(m)) => assert!(m.starts_with("Failed to render template. ")),
        _ => panic!("expected a render error"),
    }
}

#[test]
fn empty_fallback_group_when_everything_is_filtered() {
    let mut tree = fallback_group();
    tree.target = TargetSpec::Targets(vec!["asic".to_string()]);
    tree.files = vec![file("/w/a.sv")];
    let ctx = generate_context(
        &tree,
        "/w",
        &vec!["fpga".to_string()],
        ScriptFormat::Template,
        false,
        &vec![],
        &plain_options(),
        &no_packages(),
    );
    assert!(ctx.all_files.is_empty());
    assert!(ctx.srcs.is_empty());
}
