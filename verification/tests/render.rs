//! Template engine tests: registry precedence and overrides, export plans
//! for every target, the error surface of engine construction, and the
//! planned templates run through tera's renderer as the application runs
//! them.

use irgen::builder::build_component;
use irgen::error::Error;
use irgen::export::{builtin_templates, plan_export, ExportFormat, ExportPayload};
use irgen::table::{CellValue, Frame, SheetPool};
use irgen::templates::TemplateEngine;

fn renderer_of(engine: &TemplateEngine) -> tera::Tera {
    let mut t = tera::Tera::default();
    t.autoescape_on(Vec::new());
    for (name, source) in engine.entries().iter() {
        t.add_raw_template(name, source).unwrap();
    }
    t
}

fn render_plan(engine: &TemplateEngine, kind: ExportFormat, compo: &irgen::ir::Component) -> (String, String) {
    let plan = plan_export(kind, engine, compo).unwrap();
    match plan.payload {
        ExportPayload::Document { content } => (plan.extension, content),
        ExportPayload::Template { name, source: _, context } => {
            let t = renderer_of(engine);
            let value: serde_json::Value = serde_json::from_str(&context).unwrap();
            let ctx = tera::Context::from_value(value).unwrap();
            (plan.extension, t.render(&name, &ctx).unwrap())
        }
    }
}

fn cell(s: &str) -> CellValue {
    CellValue::Text(s.to_string())
}

fn demo_component() -> irgen::ir::Component {
    let mut pool = SheetPool::new();
    pool.add(
        "version".to_string(),
        Frame {
            columns: vec!["vendor".into(), "library".into(), "name".into(), "version".into()],
            rows: vec![vec![cell("acme"), cell("io"), cell("uart0"), cell("1.0")]],
        },
    );
    pool.add(
        "address_map".to_string(),
        Frame {
            columns: vec!["name".into(), "offset".into(), "range".into(), "size".into()],
            rows: vec![vec![cell("ctrl"), cell("0x1000"), cell("0x100"), CellValue::Number(32)]],
        },
    );
    pool.add(
        "ctrl".to_string(),
        Frame {
            columns: vec![
                "name".into(),
                "offset".into(),
                "size".into(),
                "width".into(),
                "attr".into(),
                "reset".into(),
                "desc".into(),
            ],
            rows: vec![
                vec![
                    cell("CR"),
                    cell("0x0"),
                    CellValue::Number(32),
                    CellValue::Empty,
                    CellValue::Empty,
                    CellValue::Empty,
                    CellValue::Empty,
                ],
                vec![
                    cell("EN"),
                    CellValue::Number(0),
                    CellValue::Empty,
                    CellValue::Number(1),
                    cell("RW"),
                    CellValue::Number(0),
                    CellValue::Empty,
                ],
            ],
        },
    );
    build_component(pool).unwrap()
}

#[test]
fn builtin_templates_cover_all_templated_targets() {
    let engine = TemplateEngine::new(builtin_templates(), Vec::new()).unwrap();
    for name in ["c_header.tera", "uvm_ral.tera", "sv_rtl.tera", "html.tera"] {
        assert!(engine.template_source(name).is_some(), "missing builtin {}", name);
    }
}

#[test]
fn templated_targets_render_with_builtin_templates() {
    let compo = demo_component();
    let engine = TemplateEngine::new(builtin_templates(), Vec::new()).unwrap();

    let (ext, header) = render_plan(&engine, ExportFormat::CHeader, &compo);
    assert_eq!(ext, "h");
    assert!(header.contains("UART0_REGS_H"));
    assert!(header.contains("#define CTRL_BASE_ADDR 4096"));
    assert!(header.contains("#define CTRL_CR_OFFSET 0"));
    assert!(header.contains("#define CTRL_CR_EN_LSB 0"));
    assert!(!header.contains("{{"));

    let (ext, ral) = render_plan(&engine, ExportFormat::UvmRal, &compo);
    assert_eq!(ext, "sv");
    assert!(ral.contains("class ctrl_CR extends uvm_reg;"));
    assert!(ral.contains("rand uvm_reg_field EN;"));

    let (ext, rtl) = render_plan(&engine, ExportFormat::Rtl, &compo);
    assert_eq!(ext, "sv");
    assert!(rtl.contains("module ctrl_regs"));
    assert!(rtl.contains("logic [32-1:0] CR_q;"));

    let (ext, html) = render_plan(&engine, ExportFormat::Html, &compo);
    assert_eq!(ext, "html");
    assert!(html.contains("<h1>acme io uart0 1.0</h1>"));
    assert!(html.contains("<h2>ctrl</h2>"));
}

#[test]
fn user_template_overrides_builtin_by_bare_filename() {
    let compo = demo_component();
    let user = vec![(
        "c_header.tera".to_string(),
        "// custom header for {{ name }}\n".to_string(),
    )];
    let engine = TemplateEngine::new(builtin_templates(), user).unwrap();
    let (_, header) = render_plan(&engine, ExportFormat::CHeader, &compo);
    assert_eq!(header, "// custom header for uart0\n");

    // An untouched kind renders exactly as it would with no user files.
    let plain = TemplateEngine::new(builtin_templates(), Vec::new()).unwrap();
    let (_, html_overridden) = render_plan(&engine, ExportFormat::Html, &compo);
    let (_, html_plain) = render_plan(&plain, ExportFormat::Html, &compo);
    assert_eq!(html_overridden, html_plain);
}

#[test]
fn nested_user_template_registers_under_path_and_bare_name() {
    let user = vec![(
        "extra/notes.tera".to_string(),
        "notes for {{ name }}".to_string(),
    )];
    let engine = TemplateEngine::new(builtin_templates(), user).unwrap();
    assert_eq!(
        engine.template_source("extra/notes.tera").as_deref(),
        Some("notes for {{ name }}")
    );
    assert_eq!(
        engine.template_source("notes.tera").as_deref(),
        Some("notes for {{ name }}")
    );
}

#[test]
fn nested_user_template_does_not_steal_a_taken_bare_name() {
    let user = vec![(
        "sub/c_header.tera".to_string(),
        "// shadowed {{ name }}".to_string(),
    )];
    let engine = TemplateEngine::new(builtin_templates(), user).unwrap();
    // The bare name was already taken by the built-in, so only the full
    // path resolves to the user content.
    assert_eq!(
        engine.template_source("sub/c_header.tera").as_deref(),
        Some("// shadowed {{ name }}")
    );
    let builtin = TemplateEngine::new(builtin_templates(), Vec::new()).unwrap();
    assert_eq!(
        engine.template_source("c_header.tera"),
        builtin.template_source("c_header.tera")
    );
}

#[test]
fn invalid_template_syntax_fails_engine_construction() {
    let user = vec![("broken.tera".to_string(), "{% if %}".to_string())];
    match TemplateEngine::new(builtin_templates(), user) {
        Err(Error::TemplateInitialization { .. }) => {}
        Err(other) => panic!("expected template initialization error, got {:?}", other),
        Ok(_) => panic!("expected template initialization error, got an engine"),
    }
}

#[test]
fn planning_a_kind_without_its_template_fails_with_render_error() {
    let compo = demo_component();
    // An engine built with no templates at all lacks every templated kind.
    let engine = TemplateEngine::new(Vec::new(), Vec::new()).unwrap();
    match plan_export(ExportFormat::CHeader, &engine, &compo) {
        Err(Error::Render { .. }) => {}
        Err(other) => panic!("expected render error, got {:?}", other),
        Ok(_) => panic!("expected render error, got a plan"),
    }
}

#[test]
fn render_time_errors_surface_from_the_renderer() {
    let compo = demo_component();
    let user = vec![(
        "needy.tera".to_string(),
        "{{ no_such_variable.field }}".to_string(),
    )];
    let engine = TemplateEngine::new(builtin_templates(), user).unwrap();
    // The engine accepts the template (its syntax is fine); the error comes
    // only at render time, from the renderer the application runs.
    let source = engine.template_source("needy.tera").unwrap();
    assert_eq!(source, "{{ no_such_variable.field }}");
    let t = renderer_of(&engine);
    let plan = plan_export(ExportFormat::CHeader, &engine, &compo).unwrap();
    let context = match plan.payload {
        ExportPayload::Template { context, .. } => context,
        ExportPayload::Document { .. } => panic!("expected a templated plan"),
    };
    let value: serde_json::Value = serde_json::from_str(&context).unwrap();
    let ctx = tera::Context::from_value(value).unwrap();
    assert!(t.render("needy.tera", &ctx).is_err());
}

#[test]
fn context_exposes_component_under_both_aliases() {
    let compo = demo_component();
    let user = vec![(
        "alias_probe.tera".to_string(),
        "{{ name }}|{{ compo.name }}|{{ component.name }}".to_string(),
    )];
    let engine = TemplateEngine::new(builtin_templates(), user).unwrap();
    let plan = plan_export(ExportFormat::CHeader, &engine, &compo).unwrap();
    let context = match plan.payload {
        ExportPayload::Template { context, .. } => context,
        ExportPayload::Document { .. } => panic!("expected a templated plan"),
    };
    let t = renderer_of(&engine);
    let value: serde_json::Value = serde_json::from_str(&context).unwrap();
    let ctx = tera::Context::from_value(value).unwrap();
    assert_eq!(t.render("alias_probe.tera", &ctx).unwrap(), "uart0|uart0|uart0");
}

#[test]
fn export_extensions_follow_their_kind() {
    let compo = demo_component();
    let engine = TemplateEngine::new(builtin_templates(), Vec::new()).unwrap();
    let cases = [
        (ExportFormat::Ipxact, "xml"),
        (ExportFormat::Regvue, "json"),
        (ExportFormat::CHeader, "h"),
        (ExportFormat::UvmRal, "sv"),
        (ExportFormat::Rtl, "sv"),
        (ExportFormat::Html, "html"),
    ];
    for (kind, ext) in cases {
        let plan = plan_export(kind, &engine, &compo).unwrap();
        assert_eq!(plan.extension, ext);
    }
}

#[test]
fn default_export_format_is_ipxact() {
    assert_eq!(ExportFormat::default(), ExportFormat::Ipxact);
}
