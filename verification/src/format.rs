//! Backend formats: the format selector, the default target names each
//! format implies, the compilation mode, emission options, and the
//! validation of format-restricted options.

use vstd::prelude::*;
use crate::model::strs_view;

verus! {

/// The backend script format to emit.
#[derive(Clone, Copy, PartialEq, Eq, Structural, Debug)]
pub enum ScriptFormat {
    Flist,
    Vsim,
    Vcs,
    Verilator,
    Synopsys,
    Formality,
    Riviera,
    Genus,
    Vivado,
    VivadoSim,
    Precision,
    Template,
    TemplateJson,
}

/// How batches are turned into tool invocations: one per batch, or one per
/// language across the whole aggregate.
#[derive(Clone, Copy, PartialEq, Eq, Structural, Debug)]
pub enum CompilationMode {
    Separate,
    Common,
}

/// The errors of this library.
#[derive(Debug)]
pub enum ScriptError {
    /// A format-restricted option was used with an incompatible format.
    OptionConflict(String),
    /// The template engine rejected the assembled context.
    Render(String),
}

impl ScriptError {
    /// The diagnostic text of the error.
    pub fn message(&self) -> (r: &str)
        ensures
            r@ == match *self {
                ScriptError::OptionConflict(m) => m@,
                ScriptError::Render(m) => m@,
            },
    {
        match self {
            ScriptError::OptionConflict(m) => m.as_str(),
            ScriptError::Render(m) => m.as_str(),
        }
    }
}

/// Command-line level options that shape emission.
pub struct EmitOptions {
    /// Arguments passed through to `vlog`-class calls.
    pub vlog_args: Vec<String>,
    /// Arguments passed through to `vcom`-class calls.
    pub vcom_args: Vec<String>,
    /// Emit only the define section.
    pub only_defines: bool,
    /// Emit only the include-directory section.
    pub only_includes: bool,
    /// Emit only the source-file section.
    pub only_sources: bool,
    /// Do not touch the `simset` fileset.
    pub no_simset: bool,
    /// Wrap steps so the script stops on the first error.
    pub abort_on_error: bool,
    /// Rewrite paths under the root to a root-relative form.
    pub relative_path: bool,
    /// Compilation mode.
    pub compilation_mode: CompilationMode,
    /// Binary name for the Verilog analyzer.
    pub vlogan_bin: String,
    /// Binary name for the VHDL analyzer.
    pub vhdlan_bin: String,
}

/// Ghost mirror of `EmitOptions`.
#[verifier::ext_equal]
pub ghost struct OptsV {
    pub vlog_args: Seq<Seq<char>>,
    pub vcom_args: Seq<Seq<char>>,
    pub only_defines: bool,
    pub only_includes: bool,
    pub only_sources: bool,
    pub no_simset: bool,
    pub abort_on_error: bool,
    pub relative_path: bool,
    pub compilation_mode: CompilationMode,
    pub vlogan_bin: Seq<char>,
    pub vhdlan_bin: Seq<char>,
}

impl EmitOptions {
    pub open spec fn view(self) -> OptsV {
        OptsV {
            vlog_args: strs_view(self.vlog_args),
            vcom_args: strs_view(self.vcom_args),
            only_defines: self.only_defines,
            only_includes: self.only_includes,
            only_sources: self.only_sources,
            no_simset: self.no_simset,
            abort_on_error: self.abort_on_error,
            relative_path: self.relative_path,
            compilation_mode: self.compilation_mode,
            vlogan_bin: self.vlogan_bin@,
            vhdlan_bin: self.vhdlan_bin@,
        }
    }
}

/// The default target names a format implies.
pub open spec fn spec_default_targets(f: ScriptFormat) -> Seq<Seq<char>> {
    match f {
        ScriptFormat::Flist => seq!["flist"@],
        ScriptFormat::Vsim => seq!["vsim"@, "simulation"@],
        ScriptFormat::Vcs => seq!["vcs"@, "simulation"@],
        ScriptFormat::Verilator => seq!["verilator"@, "synthesis"@],
        ScriptFormat::Synopsys => seq!["synopsys"@, "synthesis"@],
        ScriptFormat::Formality => seq!["synopsys"@, "synthesis"@, "formality"@],
        ScriptFormat::Riviera => seq!["riviera"@, "simulation"@],
        ScriptFormat::Genus => seq!["genus"@, "synthesis"@],
        ScriptFormat::Vivado => seq!["vivado"@, "fpga"@, "xilinx"@, "synthesis"@],
        ScriptFormat::VivadoSim => seq!["vivado"@, "fpga"@, "xilinx"@, "simulation"@],
        ScriptFormat::Precision => seq!["precision"@, "fpga"@, "synthesis"@],
        ScriptFormat::Template => Seq::empty(),
        ScriptFormat::TemplateJson => Seq::empty(),
    }
}

/// The default target names of a format; none when suppressed.
pub fn default_targets(f: ScriptFormat, no_default_target: bool) -> (r: Vec<String>)
    ensures
        strs_view(r) == if no_default_target {
            Seq::<Seq<char>>::empty()
        } else {
            spec_default_targets(f)
        },
{
    let mut out: Vec<String> = Vec::new();
    proof {
        assert(strs_view(out) =~= Seq::<Seq<char>>::empty());
    }
    if no_default_target {
        return out;
    }
    match f {
        ScriptFormat::Flist => {
            out.push("flist".to_owned());
        },
        ScriptFormat::Vsim => {
            out.push("vsim".to_owned());
            out.push("simulation".to_owned());
        },
        ScriptFormat::Vcs => {
            out.push("vcs".to_owned());
            out.push("simulation".to_owned());
        },
        ScriptFormat::Verilator => {
            out.push("verilator".to_owned());
            out.push("synthesis".to_owned());
        },
        ScriptFormat::Synopsys => {
            out.push("synopsys".to_owned());
            out.push("synthesis".to_owned());
        },
        ScriptFormat::Formality => {
            out.push("synopsys".to_owned());
            out.push("synthesis".to_owned());
            out.push("formality".to_owned());
        },
        ScriptFormat::Riviera => {
            out.push("riviera".to_owned());
            out.push("simulation".to_owned());
        },
        ScriptFormat::Genus => {
            out.push("genus".to_owned());
            out.push("synthesis".to_owned());
        },
        ScriptFormat::Vivado => {
            out.push("vivado".to_owned());
            out.push("fpga".to_owned());
            out.push("xilinx".to_owned());
            out.push("synthesis".to_owned());
        },
        ScriptFormat::VivadoSim => {
            out.push("vivado".to_owned());
            out.push("fpga".to_owned());
            out.push("xilinx".to_owned());
            out.push("simulation".to_owned());
        },
        ScriptFormat::Precision => {
            out.push("precision".to_owned());
            out.push("fpga".to_owned());
            out.push("synthesis".to_owned());
        },
        ScriptFormat::Template => {},
        ScriptFormat::TemplateJson => {},
    }
    proof {
        assert(strs_view(out) =~= spec_default_targets(f));
    }
    out
}

/// Whether simulator passthrough arguments are allowed with a format.
pub open spec fn spec_sim_args_ok(f: ScriptFormat, has_sim_args: bool) -> bool {
    !has_sim_args || f == ScriptFormat::Vsim || f == ScriptFormat::Vcs || f
        == ScriptFormat::Riviera || f == ScriptFormat::Template || f == ScriptFormat::TemplateJson
}

/// Whether the FPGA-toolchain-only flags are allowed with a format.
pub open spec fn spec_fileset_flags_ok(f: ScriptFormat, has_fileset_flags: bool) -> bool {
    !has_fileset_flags || f == ScriptFormat::Vivado || f == ScriptFormat::VivadoSim || f
        == ScriptFormat::Template || f == ScriptFormat::TemplateJson
}

/// Rejects format-restricted options used with an incompatible format,
/// before any processing.
///
/// `has_sim_args` says whether a `vcom`/`vlog` passthrough argument was
/// given; `has_fileset_flags` whether one of the partial-emission or fileset
/// flags was.
pub fn validate_options(f: ScriptFormat, has_sim_args: bool, has_fileset_flags: bool) -> (r:
    Result<(), ScriptError>)
    ensures
        r is Ok <==> spec_sim_args_ok(f, has_sim_args) && spec_fileset_flags_ok(
            f,
            has_fileset_flags,
        ),
        !spec_sim_args_ok(f, has_sim_args) ==> r is Err && r->Err_0 is OptionConflict,
        spec_sim_args_ok(f, has_sim_args) && !spec_fileset_flags_ok(f, has_fileset_flags)
            ==> r is Err && r->Err_0 is OptionConflict,
{
    if has_sim_args && !(matches!(f, ScriptFormat::Vsim) || matches!(f, ScriptFormat::Vcs)
        || matches!(f, ScriptFormat::Riviera) || matches!(f, ScriptFormat::Template) || matches!(
        f,
        ScriptFormat::TemplateJson,
    )) {
        return Err(
            ScriptError::OptionConflict(
                "vsim/vcs-only options can only be used for 'vcs', 'vsim' or 'riviera' format!".to_owned(),
            ),
        );
    }
    if has_fileset_flags && !(matches!(f, ScriptFormat::Vivado) || matches!(
        f,
        ScriptFormat::VivadoSim,
    ) || matches!(f, ScriptFormat::Template) || matches!(f, ScriptFormat::TemplateJson)) {
        return Err(
            ScriptError::OptionConflict(
                "Vivado-only options can only be used for 'vivado' format!".to_owned(),
            ),
        );
    }
    Ok(())
}

} // verus!
