//! Export orchestration: one dispatch over the closed set of export targets.
//! The two structural targets run an adapter and its serializer to finished
//! document text; the four templated targets resolve a template by kind and
//! pair its source with the component's rendering context, for the
//! surrounding application to run through the template engine's renderer.
//! Each target fixes the output file's extension.

use vstd::prelude::*;
use crate::ctxjson::{context_json, spec_context_json};
use crate::error::Error;
use crate::ir::Component;
use crate::ipxact::{ipxact_component_of, ipxact_xml, spec_ipxact_of, spec_ipxact_xml};
use crate::regvue::{regvue_document_of, regvue_json, spec_regvue_json, spec_regvue_of};
use crate::templates::TemplateEngine;

verus! {

/// The closed set of export targets.
#[derive(Debug, Clone, Copy, PartialEq, Eq, Structural)]
pub enum ExportFormat {
    Ipxact,
    Regvue,
    CHeader,
    UvmRal,
    Rtl,
    Html,
}

impl Default for ExportFormat {
    fn default() -> (r: Self)
        ensures
            r == ExportFormat::Ipxact,
    {
        ExportFormat::Ipxact
    }
}

/// The file extension each target writes.
pub open spec fn spec_extension(kind: ExportFormat) -> Seq<char> {
    match kind {
        ExportFormat::Ipxact => "xml"@,
        ExportFormat::Regvue => "json"@,
        ExportFormat::CHeader => "h"@,
        ExportFormat::UvmRal => "sv"@,
        ExportFormat::Rtl => "sv"@,
        ExportFormat::Html => "html"@,
    }
}

/// The template name a templated target renders; the structural targets
/// render none.
pub open spec fn spec_template_name(kind: ExportFormat) -> Seq<char> {
    match kind {
        ExportFormat::CHeader => "c_header.tera"@,
        ExportFormat::UvmRal => "uvm_ral.tera"@,
        ExportFormat::Rtl => "sv_rtl.tera"@,
        ExportFormat::Html => "html.tera"@,
        _ => Seq::empty(),
    }
}

impl ExportFormat {
    /// The file extension this target writes.
    pub fn extension(&self) -> (r: &'static str)
        ensures
            r@ == spec_extension(*self),
    {
        match self {
            ExportFormat::Ipxact => "xml",
            ExportFormat::Regvue => "json",
            ExportFormat::CHeader => "h",
            ExportFormat::UvmRal => "sv",
            ExportFormat::Rtl => "sv",
            ExportFormat::Html => "html",
        }
    }
}

/// Whether a target renders through a template (as opposed to a structural
/// adapter).
pub open spec fn spec_is_templated(kind: ExportFormat) -> bool {
    match kind {
        ExportFormat::CHeader => true,
        ExportFormat::UvmRal => true,
        ExportFormat::Rtl => true,
        ExportFormat::Html => true,
        _ => false,
    }
}

/// What one export writes or renders: finished document text for a
/// structural target, or the resolved template and its rendering context for
/// a templated one.
#[derive(Debug, Clone, PartialEq)]
pub enum ExportPayload {
    Document { content: String },
    Template { name: String, source: String, context: String },
}

/// One export, ready for the surrounding application: the file extension the
/// target takes, and its payload.
#[derive(Debug, Clone, PartialEq)]
pub struct ExportPlan {
    pub extension: String,
    pub payload: ExportPayload,
}

/// The built-in templates bundled with the application, one per templated
/// target, in registration order.
pub fn builtin_templates() -> (r: Vec<(String, String)>)
    ensures
        r@.len() == 4,
        r@[0].0@ == "c_header.tera"@,
        r@[1].0@ == "uvm_ral.tera"@,
        r@[2].0@ == "sv_rtl.tera"@,
        r@[3].0@ == "html.tera"@,
{
    let mut out: Vec<(String, String)> = Vec::new();
    out.push(
        (
            String::from_str("c_header.tera"),
            String::from_str(
                "// Register definitions for {{ name }}\n#ifndef {{ name | upper }}_REGS_H\n#define {{ name | upper }}_REGS_H\n\n{% for blk in blks %}#define {{ blk.name | upper }}_BASE_ADDR {{ blk.offset }}\n{% for reg in blk.regs %}#define {{ blk.name | upper }}_{{ reg.name | upper }}_OFFSET {{ reg.offset }}\n{% for f in reg.fields %}#define {{ blk.name | upper }}_{{ reg.name | upper }}_{{ f.name | upper }}_LSB {{ f.offset }}\n#define {{ blk.name | upper }}_{{ reg.name | upper }}_{{ f.name | upper }}_WIDTH {{ f.width }}\n{% endfor %}{% endfor %}{% endfor %}\n#endif\n",
            ),
        ),
    );
    out.push(
        (
            String::from_str("uvm_ral.tera"),
            String::from_str(
                "// UVM register model for {{ name }}\n{% for blk in blks %}{% for reg in blk.regs %}class {{ blk.name }}_{{ reg.name }} extends uvm_reg;\n{% for f in reg.fields %}  rand uvm_reg_field {{ f.name }};\n{% endfor %}  function new(string name = \"{{ blk.name }}_{{ reg.name }}\");\n    super.new(name, {{ reg.size }}, UVM_NO_COVERAGE);\n  endfunction\nendclass\n\n{% endfor %}{% endfor %}",
            ),
        ),
    );
    out.push(
        (
            String::from_str("sv_rtl.tera"),
            String::from_str(
                "// Register block RTL for {{ name }}\n{% for blk in blks %}module {{ blk.name }}_regs (\n  input logic clk,\n  input logic rst_n\n);\n{% for reg in blk.regs %}  logic [{{ reg.size }}-1:0] {{ reg.name }}_q;\n{% endfor %}endmodule\n\n{% endfor %}",
            ),
        ),
    );
    out.push(
        (
            String::from_str("html.tera"),
            String::from_str(
                "<!DOCTYPE html>\n<html><head><title>{{ name }} register map</title></head>\n<body>\n<h1>{{ vendor }} {{ library }} {{ name }} {{ version }}</h1>\n{% for blk in blks %}<h2>{{ blk.name }}</h2>\n<table>\n{% for reg in blk.regs %}<tr><td>{{ reg.name }}</td><td>{{ reg.offset }}</td></tr>\n{% endfor %}</table>\n{% endfor %}</body></html>\n",
            ),
        ),
    );
    out
}

/// Runs one full export pipeline for a target, up to the file write. A
/// structural target always succeeds with its document text pinned exactly.
/// A templated target succeeds exactly when its template name is registered,
/// and then carries that name, the source it resolves to, and the rendering
/// context (the component's fields hoisted to the context root and the
/// component under `compo` and `component`) for the renderer.
pub fn plan_export(kind: ExportFormat, engine: &TemplateEngine, compo: &Component) -> (r: Result<
    ExportPlan,
    Error,
>)
    ensures
        r matches Ok(p) ==> p.extension@ == spec_extension(kind),
        kind == ExportFormat::Ipxact ==> (r matches Ok(p) && p.payload matches
            ExportPayload::Document { content } && content@ == spec_ipxact_xml(
            spec_ipxact_of(compo@),
        )),
        kind == ExportFormat::Regvue ==> (r matches Ok(p) && p.payload matches
            ExportPayload::Document { content } && content@ == spec_regvue_json(
            spec_regvue_of(compo@),
        )),
        spec_is_templated(kind) ==> (r is Ok <==> engine.templates().contains_key(
            spec_template_name(kind),
        )),
        spec_is_templated(kind) && r is Ok ==> (r matches Ok(p) && p.payload matches
            ExportPayload::Template { name, source, context } && name@ == spec_template_name(kind)
            && engine.templates()[name@] == source@ && context@ == spec_context_json(compo@)),
        r matches Err(e) ==> e is Render || e is Conversion,
{
    let extension = String::from_str(kind.extension());
    match kind {
        ExportFormat::Ipxact => {
            let doc = match ipxact_component_of(compo) {
                Ok(d) => d,
                Err(e) => {
                    return Err(Error::Conversion { message: e.message() });
                },
            };
            let content = ipxact_xml(&doc);
            Ok(ExportPlan { extension, payload: ExportPayload::Document { content } })
        },
        ExportFormat::Regvue => {
            let doc = match regvue_document_of(compo) {
                Ok(d) => d,
                Err(e) => {
                    return Err(Error::Conversion { message: e.message() });
                },
            };
            let content = regvue_json(&doc);
            Ok(ExportPlan { extension, payload: ExportPayload::Document { content } })
        },
        ExportFormat::CHeader => templated_plan(extension, engine, "c_header.tera", compo),
        ExportFormat::UvmRal => templated_plan(extension, engine, "uvm_ral.tera", compo),
        ExportFormat::Rtl => templated_plan(extension, engine, "sv_rtl.tera", compo),
        ExportFormat::Html => templated_plan(extension, engine, "html.tera", compo),
    }
}

/// Resolves a templated target's source and pairs it with the context.
fn templated_plan(
    extension: String,
    engine: &TemplateEngine,
    name: &str,
    compo: &Component,
) -> (r: Result<ExportPlan, Error>)
    ensures
        r is Ok <==> engine.templates().contains_key(name@),
        r matches Ok(p) ==> p.extension@ == extension@ && (p.payload matches
            ExportPayload::Template { name: n, source, context } && n@ == name@
            && engine.templates()[name@] == source@ && context@ == spec_context_json(compo@)),
        r matches Err(e) ==> e is Render,
{
    let source = match engine.template_source(name) {
        Some(s) => s,
        None => {
            let mut m = String::from_str("no template registered under: ");
            m.append(name);
            return Err(Error::Render { message: m });
        },
    };
    let context = context_json(compo);
    Ok(
        ExportPlan {
            extension,
            payload: ExportPayload::Template { name: String::from_str(name), source, context },
        },
    )
}

} // verus!
