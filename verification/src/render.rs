//! Renderer: hands the assembled context to the template engine and
//! renders one of the built-in backend templates, a user-supplied template
//! string, or the raw context dump.
//!
//! The engine is a black box: what the library guarantees ends at the
//! assembled context, whose value `spec_assemble` pins down.

use vstd::prelude::*;
use crate::context::{BatchContext, ScriptContext};
use crate::format::{ScriptError, ScriptFormat};

verus! {

#[verifier::external_type_specification]
#[verifier::external_body]
pub struct ExTeraContext(tera::Context);

/// The banner line placed at the top of generated scripts.
pub const HEADER_AUTOGEN: &'static str = "This script was generated automatically.";

/// Relies on `tera::Context::new`: a fresh, empty context.
#[verifier::external_body]
fn ctx_new() -> (r: tera::Context) {
    tera::Context::new()
}

/// Relies on `tera::Context::insert`, serializing a string value.
#[verifier::external_body]
fn ctx_insert_str(c: &mut tera::Context, key: &str, value: &str) {
    c.insert(key, value)
}

/// Relies on `tera::Context::insert`, serializing a boolean value.
#[verifier::external_body]
fn ctx_insert_bool(c: &mut tera::Context, key: &str, value: bool) {
    c.insert(key, &value)
}

/// Relies on `tera::Context::insert`, serializing a list of strings.
#[verifier::external_body]
fn ctx_insert_strs(c: &mut tera::Context, key: &str, value: &Vec<String>) {
    c.insert(key, value)
}

/// Relies on `tera::Context::insert`, serializing a list of define pairs
/// (a pair serializes as a two-element array, so templates read `.0`/`.1`).
#[verifier::external_body]
fn ctx_insert_defines(c: &mut tera::Context, key: &str, value: &Vec<(String, Option<String>)>) {
    c.insert(key, value)
}

/// Relies on `tera::Context::insert` and `serde_json::to_value`: each batch
/// entry becomes an object with the fields `defines`, `incdirs`, `files`
/// and `file_type`, under the key `srcs`.
#[verifier::external_body]
fn ctx_insert_srcs(c: &mut tera::Context, value: &Vec<BatchContext>) {
    let items: Vec<std::collections::BTreeMap<&str, serde_json::Value>> = value.iter().map(
        |b| {
            let mut m = std::collections::BTreeMap::new();
            m.insert("defines", serde_json::to_value(&b.defines).unwrap_or(serde_json::Value::Null));
            m.insert("incdirs", serde_json::to_value(&b.incdirs).unwrap_or(serde_json::Value::Null));
            m.insert("files", serde_json::to_value(&b.files).unwrap_or(serde_json::Value::Null));
            m.insert("file_type", serde_json::Value::String(b.file_type.clone()));
            m
        },
    ).collect();
    c.insert("srcs", &items)
}

/// Relies on `tera::Tera::render_str`: one-off rendering of a template
/// string against a context; the error is carried as its display text.
#[verifier::external_body]
fn tera_render(template: &str, c: &tera::Context) -> (r: Result<String, String>) {
    let mut engine = tera::Tera::default();
    engine.render_str(template, c).map_err(|e| e.to_string())
}

/// Relies on `tera::Context::into_json`: the pretty-printed JSON value of
/// the context.
#[verifier::external_body]
fn ctx_json(c: &tera::Context) -> (r: String) {
    format!("{:#}", c.clone().into_json())
}

/// Fills an engine context with every field of the assembled context.
fn build_tera_context(ctx: &ScriptContext) -> (r: tera::Context) {
    let mut c = ctx_new();
    ctx_insert_str(&mut c, "HEADER_AUTOGEN", HEADER_AUTOGEN);
    ctx_insert_str(&mut c, "root", ctx.root.as_str());
    ctx_insert_bool(&mut c, "abort_on_error", ctx.abort_on_error);
    ctx_insert_defines(&mut c, "global_defines", &ctx.global_defines);
    ctx_insert_defines(&mut c, "all_defines", &ctx.all_defines);
    ctx_insert_strs(&mut c, "all_incdirs", &ctx.all_incdirs);
    ctx_insert_strs(&mut c, "all_files", &ctx.all_files);
    ctx_insert_srcs(&mut c, &ctx.srcs);
    ctx_insert_strs(&mut c, "all_verilog", &ctx.all_verilog);
    ctx_insert_strs(&mut c, "all_vhdl", &ctx.all_vhdl);
    ctx_insert_strs(&mut c, "vlog_args", &ctx.vlog_args);
    ctx_insert_strs(&mut c, "vcom_args", &ctx.vcom_args);
    ctx_insert_str(&mut c, "vlogan_bin", ctx.vlogan_bin.as_str());
    ctx_insert_str(&mut c, "vhdlan_bin", ctx.vhdlan_bin.as_str());
    ctx_insert_bool(&mut c, "relativize_path", ctx.relativize_path);
    ctx_insert_str(&mut c, "compilation_mode", ctx.compilation_mode.as_str());
    ctx_insert_strs(&mut c, "vivado_filesets", &ctx.vivado_filesets);
    c
}

/// Whether a character sequence begins with a prefix.
pub open spec fn spec_starts_with(m: Seq<char>, p: Seq<char>) -> bool {
    p.len() <= m.len() && m.take(p.len() as int) == p
}

/// The text of the built-in template each format renders with; the custom
/// and raw formats have none.
pub open spec fn spec_builtin_template(f: ScriptFormat) -> Option<Seq<char>> {
    match f {
        ScriptFormat::Flist => Some(FLIST_TPL@),
        ScriptFormat::Vsim => Some(VSIM_TCL_TPL@),
        ScriptFormat::Vcs => Some(VCS_SH_TPL@),
        ScriptFormat::Verilator => Some(VERILATOR_SH_TPL@),
        ScriptFormat::Synopsys => Some(SYNOPSYS_TCL_TPL@),
        ScriptFormat::Formality => Some(FORMALITY_TCL_TPL@),
        ScriptFormat::Riviera => Some(RIVIERA_TCL_TPL@),
        ScriptFormat::Genus => Some(GENUS_TCL_TPL@),
        ScriptFormat::Vivado => Some(VIVADO_TCL_TPL@),
        ScriptFormat::VivadoSim => Some(VIVADO_TCL_TPL@),
        ScriptFormat::Precision => Some(PRECISION_TCL_TPL@),
        ScriptFormat::Template => None,
        ScriptFormat::TemplateJson => None,
    }
}

/// The built-in template of a format; the custom and raw formats have none.
pub fn builtin_template(f: ScriptFormat) -> (r: Option<&'static str>)
    ensures
        match r {
            Some(t) => spec_builtin_template(f) == Some(t@),
            None => spec_builtin_template(f) is None,
        },
        r is None <==> (f == ScriptFormat::Template || f == ScriptFormat::TemplateJson),
{
    match f {
        ScriptFormat::Flist => Some(FLIST_TPL),
        ScriptFormat::Vsim => Some(VSIM_TCL_TPL),
        ScriptFormat::Vcs => Some(VCS_SH_TPL),
        ScriptFormat::Verilator => Some(VERILATOR_SH_TPL),
        ScriptFormat::Synopsys => Some(SYNOPSYS_TCL_TPL),
        ScriptFormat::Formality => Some(FORMALITY_TCL_TPL),
        ScriptFormat::Riviera => Some(RIVIERA_TCL_TPL),
        ScriptFormat::Genus => Some(GENUS_TCL_TPL),
        ScriptFormat::Vivado => Some(VIVADO_TCL_TPL),
        ScriptFormat::VivadoSim => Some(VIVADO_TCL_TPL),
        ScriptFormat::Precision => Some(PRECISION_TCL_TPL),
        ScriptFormat::Template => None,
        ScriptFormat::TemplateJson => None,
    }
}

/// Renders the assembled context with a template string; a rejected
/// template surfaces as a render error whose message chains the engine's
/// diagnostic onto a fixed wrapping prefix.
pub fn render_script(template: &str, ctx: &ScriptContext) -> (r: Result<String, ScriptError>)
    ensures
        r is Err ==> r->Err_0 is Render && spec_starts_with(
            r->Err_0->Render_0@,
            "Failed to render template. "@,
        ),
{
    let c = build_tera_context(ctx);
    match tera_render(template, &c) {
        Ok(s) => Ok(s),
        Err(m) => {
            let mut msg = "Failed to render template. ".to_owned();
            msg.append(m.as_str());
            proof {
                assert(msg@.take("Failed to render template. "@.len() as int)
                    =~= "Failed to render template. "@);
            }
            Err(ScriptError::Render(msg))
        },
    }
}

/// Serializes the assembled context instead of rendering a template.
pub fn context_json_string(ctx: &ScriptContext) -> (r: String) {
    let c = build_tera_context(ctx);
    ctx_json(&c)
}

/// Emits the final text for a format: the raw context dump for the JSON
/// format, a user-supplied template when one is given, and the format's
/// built-in template otherwise.
pub fn emit_script(format: ScriptFormat, custom_template: Option<&str>, ctx: &ScriptContext) -> (r:
    Result<String, ScriptError>)
    ensures
        r is Err ==> r->Err_0 is Render && spec_starts_with(
            r->Err_0->Render_0@,
            "Failed to render template. "@,
        ),
        format == ScriptFormat::TemplateJson ==> r is Ok,
{
    if matches!(format, ScriptFormat::TemplateJson) {
        return Ok(context_json_string(ctx));
    }
    let tpl: &str = match custom_template {
        Some(t) => t,
        None => match builtin_template(format) {
            Some(t) => t,
            None => "",
        },
    };
    render_script(tpl, ctx)
}

/// Built-in template: `flist`.
pub const FLIST_TPL: &'static str = "\
{% for incdir in all_incdirs %}\
    {% if relativize_path %}\
        +incdir+{{ incdir | replace(from=root, to='') }}\n\
    {% else %}\
        +incdir+{{ incdir }}\n\
    {% endif %}\
{% endfor %}\
{% for define in all_defines %}\
    +define+{{ define.0 | upper }}{% if define.1 %}={{ define.1 }}{% endif %}\n\
{% endfor %}\
{% for file in all_files %}\
    {% if relativize_path %}\
        {% if file is starting_with(root) %}\
            {{ file | replace(from=root, to='') | trim_start_matches(pat='/') }}\n\
        {% else %}\
            {{ file }}\n\
        {% endif %}\
    {% else %}\
        {{ file }}\n\
    {% endif %}\
{% endfor %}";

/// Built-in template: `vsim`.
pub const VSIM_TCL_TPL: &'static str = "\
# {{ HEADER_AUTOGEN }}
set ROOT \"{{ root }}\"
{% if compilation_mode == 'separate' %}\
    {% for group in srcs %}\n\
        {% if abort_on_error %}if {[catch { {% endif %}\
        {% if group.file_type == 'verilog' %}vlog -incr -sv \\\n    \
            {% for tmp_arg in vlog_args %}\
                {{ tmp_arg }} \\\n    \
            {% endfor %}\
            {% for define in group.defines %}\
                +define+{{ define.0 | upper }}{% if define.1 %}={{ define.1 }}{% endif %} \\\n    \
            {% endfor %}\
            {% for incdir in group.incdirs %}\
                \"+incdir+{{ incdir | replace(from=root, to='$ROOT') }}\" \\\n    \
            {% endfor %}\
        {% elif group.file_type == 'vhdl' %}vcom -2008 \\\n    \
            {% for tmp_arg in vcom_args %}\
                {{ tmp_arg }} \\\n    \
            {% endfor %}\
        {% endif %}\
        {% for file in group.files %}\
            \"{{ file | replace(from=root, to='$ROOT') }}\" {% if not loop.last %}\\\n    {% endif %}\
        {% endfor %}\
        {% if abort_on_error %}\\\n}]} {return 1}\
        {% endif %}\n\
    {% endfor %}\
{% else %}{# compilation_mode == 'common' #}\
    {% for file in all_verilog %}\
        {% if loop.first %}\
            {% if abort_on_error %}if {[catch { {% endif %}\
            vlog -incr -sv \\\n    \
            {% for tmp_arg in vlog_args %}\
                {{ tmp_arg }} \\\n    \
            {% endfor %}\
            {% for define in all_defines %}\
                +define+{{ define.0 | upper }}{% if define.1 %}={{ define.1 }}{% endif %} \\\n    \
            {% endfor %}\
            {% for incdir in all_incdirs %}\
                \"+incdir+{{ incdir | replace(from=root, to='$ROOT') }}\" \\\n    \
            {% endfor %}\
        {% endif %}\
        \"{{ file | replace(from=root, to='$ROOT') }}\" {% if not loop.last %}\\\n    {% endif %}\
        {% if loop.last %}\
            {% if abort_on_error %} \\\n}]} {return 1}\
            {% endif %}\n\
        {% endif %}\
    {% endfor %}\
    {% for file in all_vhdl %}\
        {% if loop.first %}\
            {% if abort_on_error %}if {[catch { {% endif %}\
            vcom -2008 \\\n    \
            {% for tmp_arg in vcom_args %}\
                {{ tmp_arg }} \\\n    \
            {% endfor %}\
        {% endif %}\
        \"{{ file | replace(from=root, to='$ROOT') }}\" {% if not loop.last %}\\\n    {% endif %}\
        {% if loop.last %}\n\
            {% if abort_on_error %}\n}]} {return 1}\
            {% endif %}\n\
        {% endif %}\
    {% endfor %}\
{% endif %}";

/// Built-in template: `vcs`.
pub const VCS_SH_TPL: &'static str = "\
#!/usr/bin/env bash
# {{ HEADER_AUTOGEN }}
ROOT=\"{{ root }}\"
{% if compilation_mode == 'separate' %}\
    {% for group in srcs %}\n\
        {% if group.file_type == 'verilog' %}{{ vlogan_bin }} -sverilog \\\n    \
            -full64 \\\n    \
            {% for tmp_arg in vlog_args %}\
                {{ tmp_arg }} \\\n    \
            {% endfor %}\
            {% for define in group.defines %}\
                +define+{{ define.0 | upper }}{% if define.1 %}={{ define.1 }}{% endif %} \\\n    \
            {% endfor %}\
            {% for incdir in group.incdirs %}\
                \"+incdir+{{ incdir | replace(from=root, to='$ROOT') }}\" \\\n    \
            {% endfor %}\
        {% elif group.file_type == 'vhdl' %}{{ vhdlan_bin }} \\\n    \
            {% for tmp_arg in vcom_args %}\
                {{ tmp_arg }} \\\n    \
            {% endfor %}\
        {% endif %}\
        {% for file in group.files %}\
            \"{{ file | replace(from=root, to='$ROOT') }}\" {% if not loop.last %}\\\n    {% endif %}\
        {% endfor %}\n\
    {% endfor %}
{% else %}{# compilation_mode == 'common' #}\
    {% for file in all_verilog %}\
        {% if loop.first %}{{ vlogan_bin }} -sverilog \\\n    \
            -full64 \\\n    \
            {% for tmp_arg in vlog_args %}\
                {{ tmp_arg }} \\\n    \
            {% endfor %}\
            {% for define in all_defines %}\
                +define+{{ define.0 | upper }}{% if define.1 %}={{ define.1 }}{% endif %} \\\n    \
            {% endfor %}\
            {% for incdir in all_incdirs %}\
                \"+incdir+{{ incdir | replace(from=root, to='$ROOT') }}\" \\\n    \
            {% endfor %}\
        {% endif %}\
        \"{{ file | replace(from=root, to='$ROOT') }}\" {% if not loop.last %}\\\n    {% endif %}\
        {% if loop.last %}\n{% endif %}\
    {% endfor %}\n\
    {% for file in all_vhdl %}\
        {% if loop.first %}{{ vhdlan_bin }} \\\n    \
            {% for tmp_arg in vcom_args %}\
                {{ tmp_arg }} \\\n    \
            {% endfor %}\
        {% endif %}\
        \"{{ file | replace(from=root, to='$ROOT') }}\" {% if not loop.last %}\\\n    {% endif %}\
        {% if loop.last %}\n{% endif %}\
    {% endfor %}\n\
{% endif %}";

/// Built-in template: `verilator`.
pub const VERILATOR_SH_TPL: &'static str = "\
{% for group in srcs %}\
    {% if group.file_type == 'verilog' %}\n\
        {% for tmp_arg in vlog_args %}\
            {{ tmp_arg }}\n\
        {% endfor %}\
        {% for define in group.defines %}\
            +define+{{ define.0 | upper }}{% if define.1 %}={{ define.1 }}{% endif %}\n\
        {% endfor %}\
        {% for incdir in group.incdirs %}\
            +incdir+{{ incdir | replace(from=root, to='$ROOT') }}\n\
        {% endfor %}\
        {% for file in group.files %}\
            {{ file }}\n\
        {% endfor %}\
    {% endif %}\
{% endfor %}";

/// Built-in template: `synopsys`.
pub const SYNOPSYS_TCL_TPL: &'static str = "\
# {{HEADER_AUTOGEN}}
set ROOT \"{{ root }}\"
set search_path_initial $search_path
{% if compilation_mode == 'separate' %}\
    {% for group in srcs %}\n\
        set search_path $search_path_initial\n\
        {% for incdir in group.incdirs %}\
            lappend search_path \"$ROOT{{ incdir | replace(from=root, to='') }}\"\n\
        {% endfor %}\n\
        {% if abort_on_error %}if {[catch { {% endif %}analyze -format \
        {% if group.file_type == 'verilog' %}sv{% elif group.file_type == 'vhdl' %}vhdl{% endif %} \\\n    \
        {% for define in group.defines %}\
            {% if loop.first %}-define { \\\n        {% endif %}\
            {{ define.0 | upper }}{% if define.1 %}={{ define.1 }}{% endif %}\
            {% if loop.last %} \\\n    } \\\n    {% else %} \\\n        {% endif %}\
        {% endfor %}\
        [list \\\n    \
        {% for file in group.files %}\
            {{ '    ' }}\"{{ file | replace(from=root, to='$ROOT') }}\" \\\n    \
        {% endfor %}\
        ]\n\
        {% if abort_on_error %}}]} {return 1}\
        {% endif %}\n\
    {% endfor %}\n\
{% else %}{# compilation_mode == 'common' #}\
    {% for file in all_verilog %}\
        {% if loop.first %}\
            set search_path $search_path_initial\n\
            {% for incdir in all_incdirs %}\
                lappend search_path \"$ROOT{{ incdir | replace(from=root, to='') }}\"\n\
            {% endfor %}\n\
            {% if abort_on_error %}if {[catch { {% endif %}analyze -format sv \\\n    \
            {% for define in all_defines %}\
                {% if loop.first %}-define { \\\n        {% endif %}\
                {{ define.0 | upper }}{% if define.1 %}={{ define.1 }}{% endif %}\
                {% if loop.last %} \\\n    } \\\n    {% else %} \\\n        {% endif %}\
            {% endfor %}\
            [list \\\n    \
        {% endif %}\
        {{ '    ' }}\"{{ file | replace(from=root, to='$ROOT') }}\" \\\n    \
        {% if loop.last %}\
            ]\n\
            {% if abort_on_error %}}]} {return 1}\
            {% endif %}\n\
        {% endif %}\
    {% endfor %}\n\
    {% for file in all_vhdl %}\
        {% if loop.first %}
            {% if abort_on_error %}if {[catch { {% endif %}analyze -format vhdl \\\n    \
            [list \\\n    \
        {% endif %}\
        {{ '    ' }}\"{{ file | replace(from=root, to='$ROOT') }}\" \\\n    \
        {% if loop.last %}\
            ]\n\
            {% if abort_on_error %}}]} {return 1}\
            {% endif %}\n\
        {% endif %}\
    {% endfor %}\n\
{% endif %}\
set search_path $search_path_initial\n";

/// Built-in template: `formality`.
pub const FORMALITY_TCL_TPL: &'static str = "\
# {{HEADER_AUTOGEN}}
set ROOT \"{{ root }}\"
set search_path_initial $search_path
{% if compilation_mode == 'separate' %}\
    {% for group in srcs %}\n\
        set search_path $search_path_initial\n\
        {% for incdir in group.incdirs %}\
            lappend search_path \"$ROOT{{ incdir | replace(from=root, to='') }}\"\n\
        {% endfor %}\n\
        {% if abort_on_error %}if {[catch { {% endif %}\
        {% if group.file_type == 'verilog' %}read_sverilog{% elif group.file_type == 'vhdl' %}read_vhdl{% endif %} -r \\\n    \
        {% for define in group.defines %}\
            {% if loop.first %}-define { \\\n        {% endif %}\
            {{ define.0 | upper }}{% if define.1 %}={{ define.1 }}{% endif %}\
            {% if loop.last %} \\\n    } \\\n    {% else %} \\\n        {% endif %}\
        {% endfor %}\
        [list \\\n    \
        {% for file in group.files %}\
            {{ '    ' }}\"{{ file | replace(from=root, to='$ROOT') }}\" \\\n    \
        {% endfor %}\
        ]\n\
        {% if abort_on_error %}}]} {return 1}\
        {% endif %}\n\
    {% endfor %}\n\
{% else %}{# compilation_mode == 'common' #}\
    {% for file in all_verilog %}\
        {% if loop.first %}\
            set search_path $search_path_initial\n\
            {% for incdir in all_incdirs %}\
                lappend search_path \"$ROOT{{ incdir | replace(from=root, to='') }}\"\n\
            {% endfor %}\n\
            {% if abort_on_error %}if {[catch { {% endif %}read_sverilog -r \\\n    \
            {% for define in all_defines %}\
                {% if loop.first %}-define { \\\n        {% endif %}\
                {{ define.0 | upper }}{% if define.1 %}={{ define.1 }}{% endif %}\
                {% if loop.last %} \\\n    } \\\n    {% else %} \\\n        {% endif %}\
            {% endfor %}\
            [list \\\n    \
        {% endif %}\
        {{ '    ' }}\"{{ file | replace(from=root, to='$ROOT') }}\" \\\n    \
        {% if loop.last %}\
            ]\n\
            {% if abort_on_error %}}]} {return 1}\
            {% endif %}\n\
        {% endif %}\
    {% endfor %}\n\
    {% for file in all_vhdl %}\
        {% if loop.first %}
            {% if abort_on_error %}if {[catch { {% endif %}read_vhdl -r \\\n    \
            [list \\\n    \
        {% endif %}\
        {{ '    ' }}\"{{ file | replace(from=root, to='$ROOT') }}\" \\\n    \
        {% if loop.last %}\
            ]\n\
            {% if abort_on_error %}}]} {return 1}\
            {% endif %}\n\
        {% endif %}\
    {% endfor %}\n\
{% endif %}\
set search_path $search_path_initial\n";

/// Built-in template: `genus`.
pub const GENUS_TCL_TPL: &'static str = "\
# {{ HEADER_AUTOGEN }}
if [ info exists search_path ] {{ '{{' }}
  set search_path_initial $search_path
{{ '}}' }}
set ROOT = \"{{ root }}\"
{% if compilation_mode == 'separate' %}\
    {% for group in srcs %}\n\
        set search_path $search_path_initial\n\
        {% for incdir in group.incdirs %}\
            lappend search_path \"$ROOT{{ incdir | replace(from=root, to='') }}\"\n\
        {% endfor %}\
        set_db init_hdl_search_path $search_path\n\n\
        {% if group.file_type == 'verilog' %}read_hdl -language sv \\\n    \
        {% elif group.file_type == 'vhdl' %}read_hdl -language vhdl \\\n    \
        {% endif %}\
        {% for define in group.defines %}\
            {% if loop.first %}-define { \\\n        {% endif %}\
            {{ define.0 | upper }}{% if define.1 %}={{ define.1 }}{% endif %}\
            {% if loop.last %} \\\n    } \\\n    {% else %} \\\n        {% endif %}\
        {% endfor %}\
        [list \\\n    \
        {% for file in group.files %}\
            {{ '    ' }}\"{{ file | replace(from=root, to='$ROOT') }}\" \\\n    \
        {% endfor %}\
        ]\n\
    {% endfor %}
{% else %}{# compilation_mode == 'common' #}\
    {% for file in all_verilog %}\
        {% if loop.first %}\
            set search_path $search_path_initial\n\
            {% for incdir in all_incdirs %}\
                lappend search_path \"$ROOT{{ incdir | replace(from=root, to='') }}\"\n\
            {% endfor %}\n\
            set_db init_hdl_search_path $search_path\n\n\
            {% if abort_on_error %}if {[catch { {% endif %}read_hdl -language sv \\\n    \
            {% for define in all_defines %}\
                {% if loop.first %}-define { \\\n        {% endif %}\
                {{ define.0 | upper }}{% if define.1 %}={{ define.1 }}{% endif %}\
                {% if loop.last %} \\\n    } \\\n    {% else %} \\\n        {% endif %}\
            {% endfor %}\
            [list \\\n    \
        {% endif %}\
        {{ '    ' }}\"{{ file | replace(from=root, to='$ROOT') }}\" \\\n    \
        {% if loop.last %}\
            ]\n\
            {% if abort_on_error %}}]} {return 1}\
            {% endif %}\n\
        {% endif %}\
    {% endfor %}\n\
    {% for file in all_vhdl %}\
        {% if loop.first %}
            {% if abort_on_error %}if {[catch { {% endif %}read_hdl -language vhdl \\\n    \
            [list \\\n    \
        {% endif %}\
        {{ '    ' }}\"{{ file | replace(from=root, to='$ROOT') }}\" \\\n    \
        {% if loop.last %}\
            ]\n\
            {% if abort_on_error %}}]} {return 1}\
            {% endif %}\n\
        {% endif %}\
    {% endfor %}\n\
{% endif %}\
set search_path $search_path_initial\n";

/// Built-in template: `vivado and vivado-sim`.
pub const VIVADO_TCL_TPL: &'static str = "\
# {{ HEADER_AUTOGEN }}
set ROOT \"{{ root }}\"
{% if compilation_mode == 'separate' %}\
    {% for group in srcs %}\
        add_files -norecurse -fileset [current_fileset] [list \\\n    \
        {% for file in group.files %}\
            {{ file | replace(from=root, to='$ROOT') }} \\\n{% if not loop.last %}    {% endif %}\
        {% endfor %}\
        ]\n\
    {% endfor %}\
{% else %}{# compilation_mode == 'common' #}\
    {% for file in all_files %}\
        {% if loop.first %}\
            add_files -norecurse -fileset [current_fileset] [list \\\n    \
        {% endif %}\
        {{ file | replace(from=root, to='$ROOT') }} \\\n{% if not loop.last %}    {% endif %}\
        {% if loop.last %}\
            ]\n\
        {% endif %}\
    {% endfor %}\
{% endif %}\
{% for arg in vivado_filesets %}\
    {% for incdir in all_incdirs %}\
        {% if loop.first %}\nset_property include_dirs [list \\\n    {% endif %}\
        {{incdir | replace(from=root, to='$ROOT') }}\
        {%if loop.last %} \\\n] [current_fileset{{ arg }}]\n{% else %} \\\n    {% endif %}\
    {% endfor %}\
{% endfor %}\
{% for arg in vivado_filesets %}\
    {% for define in all_defines %}\
        {% if loop.first %}\nset_property verilog_define [list \\\n    {% endif %}\
        {{ define.0 | upper }}{% if define.1 %}={{ define.1 }}{% endif %}\
        {% if loop.last %} \\\n] [current_fileset{{ arg }}]\n{% else %} \\\n    {% endif %}\
    {% endfor %}\
{% endfor %}";

/// Built-in template: `riviera`.
pub const RIVIERA_TCL_TPL: &'static str = "\
# {{ HEADER_AUTOGEN }}
set ROOT \"{{ root }}\"
vlib work
{% if compilation_mode == 'separate' %}\
    {% for group in srcs %}\
        {% if abort_on_error %}if {[catch { {% endif %}\
        {% if group.file_type == 'verilog' %}vlog -sv \\\n    \
            {% for tmp_arg in vlog_args %}\
                {{ tmp_arg }} \\\n    \
            {% endfor %}\
            {% for define in group.defines %}\
                +define+{{ define.0 | upper }}{% if define.1 %}={{ define.1 }}{% endif %} \\\n    \
            {% endfor %}\
            {% for incdir in group.incdirs %}\
                \"+incdir+{{ incdir | replace(from=root, to='$ROOT') }}\" \\\n    \
            {% endfor %}\
        {% elif group.file_type == 'vhdl' %}vcom -2008 \\\n    \
            {% for tmp_arg in vcom_args %}\
                {{ tmp_arg }} \\\n    \
            {% endfor %}\
        {% endif %}\
        {% for file in group.files %}\
            \"{{ file | replace(from=root, to='$ROOT') }}\" {% if not loop.last %}\\\n    {% else %}\\\n{% endif %}\
        {% endfor %}\
        {% if abort_on_error %}}]} {return 1}\
        {% endif %}\n\n\
    {% endfor %}
{% else %}{# compilation_mode == 'common' #}\
    {% for file in all_verilog %}\
        {% if loop.first %}\
            {% if abort_on_error %}if {[catch { {% endif %}\
            vlog -sv \\\n    \
            {% for tmp_arg in vlog_args %}\
                {{ tmp_arg }} \\\n    \
            {% endfor %}\
            {% for define in all_defines %}\
                +define+{{ define.0 | upper }}{% if define.1 %}={{ define.1 }}{% endif %} \\\n    \
            {% endfor %}\
            {% for incdir in all_incdirs %}\
                \"+incdir+{{ incdir | replace(from=root, to='$ROOT') }}\" \\\n    \
            {% endfor %}\
        {% endif %}\
        \"{{ file | replace(from=root, to='$ROOT') }}\" {% if not loop.last %}\\\n    {% else %}\\\n{% endif %}\
        {% if loop.last %}\
            {% if abort_on_error %}}]} {return 1}\
            {% endif %}\n\n\
        {% endif %}\
    {% endfor %}\
    {% for file in all_vhdl %}\
        {% if loop.first %}\
            {% if abort_on_error %}if {[catch { {% endif %}\
            vcom -2008 \\\n    \
            {% for tmp_arg in vcom_args %}\
                {{ tmp_arg }} \\\n    \
            {% endfor %}\
        {% endif %}\
        \"{{ file | replace(from=root, to='$ROOT') }}\" {% if not loop.last %}\\\n    {% else %}\\\n{% endif %}\
        {% if loop.last %}\
            {% if abort_on_error %}}]} {return 1}\
            {% endif %}\n\n\
        {% endif %}\
    {% endfor %}\
{% endif %}";

/// Built-in template: `precision`.
pub const PRECISION_TCL_TPL: &'static str = "\
# {{ HEADER_AUTOGEN }}
# Precision does not take relative paths into account when specifying include dirs.
# Define the common ROOT anyway if needed for patching file paths.
set ROOT {{ root }}
set_input_dir $ROOT
setup_design -search_path $ROOT
{% for define in all_defines %}\
    {% if loop.first %}\
    \n# Set globally all defines for the (S)Verilog sources.\n\
    setup_design -defines { \\\n    {% endif %}\
    +define+{{ define.0 | upper }}{% if define.1 %}={{ define.1 }}{% endif %}\
    {% if loop.last %}\n\n{% else %} \\\n    {% endif %}\
{% endfor %}\
{% if compilation_mode == 'separate' %}\
    {% for group in srcs %}\
        {% if abort_on_error %}if {[catch { {% endif %}\
        add_input_file \\\n    \
        {% if group.file_type == 'verilog' %}\
            -format SystemVerilog2012 \\\n    \
            {% for incdir in group.incdirs %}\
                {% if loop.first %}-search_path { \\\n        {% endif %}\
                    {{ incdir }}\
                {% if loop.last %} \\\n    } \\\n    {% else %} \\\n        {% endif %}\
            {% endfor %}\
        {% elif group.file_type == 'vhdl' %}\
            -format vhdl_2008 \\\n    \
        {% endif %}\
        { \\\n        \
        {% for file in group.files %}\
            {{ file }}\
            {% if loop.last %} \\\n    {% else %} \\\n        {% endif %}\
        {% endfor %}\
        } \\\n\
        {% if abort_on_error %}}]} {return 1}\n\
        {% endif %}\n\
    {% endfor %}\n
{% else %}{# compilation_mode == 'common' #}\
    {% for file in all_verilog %}\
        {% if loop.first %}\
            {% if abort_on_error %}if {[catch { {% endif %}\
            add_input_file \\\n    \
            -format SystemVerilog2012 \\\n    \
            {% for incdir in all_incdirs %}\
                {% if loop.first %}-search_path { \\\n        {% endif %}\
                    {{ incdir }}\
                {% if loop.last %} \\\n    } \\\n    {% else %} \\\n        {% endif %}\
            {% endfor %}\
            { \\\n        \
        {% endif %}\
        {{ file }}\
        {% if loop.last %} \\\n    {% else %} \\\n        {% endif %}\
        {% if loop.last %}\
            } \\\n\
            {% if abort_on_error %}}]} {return 1}\n\
            {% endif %}\n\
        {% endif %}\
    {% endfor %}\n\
    {% for file in all_vhdl %}\
        {% if loop.first %}\
            {% if abort_on_error %}if {[catch { {% endif %}\
            add_input_file \\\n    \
            -format vhdl_2008 \\\n    \
        { \\\n        \
        {% endif %}\
        {{ file }}\
        {% if loop.last %} \\\n    {% else %} \\\n        {% endif %}\
        {% if loop.last %}\
            } \\\n\
            {% if abort_on_error %}}]} {return 1}\n\
            {% endif %}\n\
        {% endif %}\
    {% endfor %}\n\
{% endif %}";

} // verus!
