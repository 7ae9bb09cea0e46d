//! Unit tests for the data model, the categorizer, the define handling and
//! the path helpers.

use hdl_script_gen::batch::{categorize_path, separate_files_in_group, SourceType};
use hdl_script_gen::defines::{merge_defines, parse_define};
use hdl_script_gen::filter::fallback_group;
use hdl_script_gen::format::{
    default_targets, validate_options, CompilationMode, EmitOptions, ScriptError, ScriptFormat,
};
use hdl_script_gen::model::{SourceFile, SourceGroup, TargetSet, TargetSpec};
use hdl_script_gen::order::sort_defines;
use hdl_script_gen::paths::relativize_path;

fn group_with_files(files: Vec<SourceFile>) -> SourceGroup {
    let mut g = fallback_group();
    g.files = files;
    g
}

#[test]
fn categorize_by_extension() {
    assert_eq!(categorize_path("a.sv"), Some(SourceType::Verilog));
    assert_eq!(categorize_path("a.v"), Some(SourceType::Verilog));
    assert_eq!(categorize_path("dir.x/a.vp"), Some(SourceType::Verilog));
    assert_eq!(categorize_path("a.vhd"), Some(SourceType::Vhdl));
    assert_eq!(categorize_path("a.vhdl"), Some(SourceType::Vhdl));
    assert_eq!(categorize_path("a.txt"), None);
    assert_eq!(categorize_path(".gitignore"), None);
    assert_eq!(categorize_path("noext"), None);
    assert_eq!(categorize_path("trailing."), None);
    assert_eq!(categorize_path("upper.SV"), None);
}

#[test]
fn batches_non_coalescence() {
    let g = group_with_files(vec![
        SourceFile::File("a.sv".to_string()),
        SourceFile::File("b.vhd".to_string()),
        SourceFile::File("c.sv".to_string()),
    ]);
    let batches = separate_files_in_group(&g);
    assert_eq!(batches.len(), 3);
    assert_eq!(batches[0].0, SourceType::Verilog);
    assert_eq!(batches[0].1, vec!["a.sv".to_string()]);
    assert_eq!(batches[1].0, SourceType::Vhdl);
    assert_eq!(batches[1].1, vec!["b.vhd".to_string()]);
    assert_eq!(batches[2].0, SourceType::Verilog);
    assert_eq!(batches[2].1, vec!["c.sv".to_string()]);
}

#[test]
fn batches_merge_adjacent_same_category() {
    let g = group_with_files(vec![
        SourceFile::File("a.sv".to_string()),
        SourceFile::File("b.sv".to_string()),
        SourceFile::File("c.vhd".to_string()),
    ]);
    let batches = separate_files_in_group(&g);
    assert_eq!(batches.len(), 2);
    assert_eq!(batches[0].1, vec!["a.sv".to_string(), "b.sv".to_string()]);
    assert_eq!(batches[1].1, vec!["c.vhd".to_string()]);
}

#[test]
fn batches_unclassified_ends_run() {
    let g = group_with_files(vec![
        SourceFile::File("a.sv".to_string()),
        SourceFile::File("x.txt".to_string()),
        SourceFile::File("b.sv".to_string()),
    ]);
    let batches = separate_files_in_group(&g);
    assert_eq!(batches.len(), 2);
    assert_eq!(batches[0].1, vec!["a.sv".to_string()]);
    assert_eq!(batches[1].1, vec!["b.sv".to_string()]);
}

#[test]
fn parse_define_splits_on_first_equals() {
    assert_eq!(parse_define("FOO"), ("FOO".to_string(), None));
    assert_eq!(parse_define("FOO=1"), ("FOO".to_string(), Some("1".to_string())));
    assert_eq!(
        parse_define("  A = b=c "),
        ("A".to_string(), Some("b=c".to_string()))
    );
    assert_eq!(parse_define("X="), ("X".to_string(), Some("".to_string())));
}

#[test]
fn sort_defines_by_name_then_value() {
    let input = vec![
        ("TARGET_FLIST".to_string(), None),
        ("FOO".to_string(), Some("2".to_string())),
        ("FOO".to_string(), None),
        ("BAR".to_string(), Some("1".to_string())),
    ];
    let sorted = sort_defines(&input);
    assert_eq!(
        sorted,
        vec![
            ("BAR".to_string(), Some("1".to_string())),
            ("FOO".to_string(), None),
            ("FOO".to_string(), Some("2".to_string())),
            ("TARGET_FLIST".to_string(), None),
        ]
    );
}

#[test]
fn merge_defines_is_case_insensitive_and_keeps_spelling() {
    let parent = vec![("Foo".to_string(), Some("1".to_string()))];
    let child = vec![
        ("FOO".to_string(), Some("2".to_string())),
        ("Bar".to_string(), None),
    ];
    let merged = merge_defines(&parent, &child);
    assert_eq!(
        merged,
        vec![
            ("Foo".to_string(), Some("2".to_string())),
            ("Bar".to_string(), None),
        ]
    );
}

#[test]
fn relativize_path_rewrites_under_root() {
    assert_eq!(relativize_path("/work/rtl/a.sv", "/work"), "$ROOT/rtl/a.sv");
    assert_eq!(relativize_path("/work", "/work"), "$ROOT/");
    assert_eq!(relativize_path("/elsewhere/a.sv", "/work"), "/elsewhere/a.sv");
    // The cut must fall on a component boundary.
    assert_eq!(relativize_path("/workother/a.sv", "/work"), "/workother/a.sv");
    assert_eq!(relativize_path("/work/rtl/a.sv", "/work/"), "$ROOT/rtl/a.sv");
}

#[test]
fn target_set_keeps_first_occurrence() {
    let t = TargetSet::new(vec![
        "vsim".to_string(),
        "simulation".to_string(),
        "vsim".to_string(),
    ]);
    assert_eq!(t.names, vec!["vsim".to_string(), "simulation".to_string()]);
}

#[test]
fn wildcard_survives_any_target_set() {
    let g = fallback_group();
    assert!(g.filter_targets(&TargetSet::new(vec![])).is_some());
    assert!(g
        .filter_targets(&TargetSet::new(vec!["anything".to_string()]))
        .is_some());
}

#[test]
fn explicit_target_set_is_excluded_or_kept() {
    let mut g = fallback_group();
    g.target = TargetSpec::Targets(vec!["asic".to_string()]);
    assert!(g.filter_targets(&TargetSet::new(vec!["fpga".to_string()])).is_none());
    assert!(g.filter_targets(&TargetSet::new(vec!["asic".to_string()])).is_some());
    assert!(g.filter_targets(&TargetSet::new(vec![])).is_none());
}

#[test]
fn default_targets_per_format() {
    assert_eq!(
        default_targets(ScriptFormat::Formality, false),
        vec![
            "synopsys".to_string(),
            "synthesis".to_string(),
            "formality".to_string()
        ]
    );
    assert_eq!(default_targets(ScriptFormat::Template, false), Vec::<String>::new());
    assert_eq!(default_targets(ScriptFormat::Vsim, true), Vec::<String>::new());
}

#[test]
fn validate_rejects_sim_args_for_other_formats() {
    let r = validate_options(ScriptFormat::Synopsys, true, false);
    match r {
        Err(ScriptError::OptionConflict(m)) => {
            assert!(m.contains("vsim"));
        }
        _ => panic!("expected an option conflict"),
    }
    assert!(validate_options(ScriptFormat::Vcs, true, false).is_ok());
}

#[test]
fn validate_rejects_fileset_flags_for_other_formats() {
    let r = validate_options(ScriptFormat::Vsim, false, true);
    match r {
        Err(ScriptError::OptionConflict(m)) => {
            assert!(m.contains("Vivado"));
        }
        _ => panic!("expected an option conflict"),
    }
    assert!(validate_options(ScriptFormat::Vivado, false, true).is_ok());
    assert!(validate_options(ScriptFormat::TemplateJson, true, true).is_ok());
}

#[test]
fn emit_options_roundtrip_mode() {
    let opts = EmitOptions {
        vlog_args: vec![],
        vcom_args: vec![],
        only_defines: false,
        only_includes: false,
        only_sources: false,
        no_simset: false,
        abort_on_error: true,
        relative_path: false,
        compilation_mode: CompilationMode::Common,
        vlogan_bin: "vlogan".to_string(),
        vhdlan_bin: "vhdlan".to_string(),
    };
    assert_eq!(opts.compilation_mode, CompilationMode::Common);
}
