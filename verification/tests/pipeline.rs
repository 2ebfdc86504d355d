//! End-to-end ingestion tests: the worked scenario, the missing-sheet error
//! keys, and the structural round-trips of both export formats.

use irgen::builder::{build_component, load_from_sheets};
use irgen::error::Error;
use irgen::export::{builtin_templates, plan_export, ExportFormat, ExportPayload};
use irgen::ir::AccessKind;
use irgen::table::{CellValue, Frame, SheetPool};
use irgen::templates::TemplateEngine;

fn txt(s: &str) -> CellValue {
    CellValue::Text(s.to_string())
}

fn num(n: u64) -> CellValue {
    CellValue::Number(n)
}

fn frame(cols: &[&str], rows: Vec<Vec<CellValue>>) -> Frame {
    Frame {
        columns: cols.iter().map(|c| c.to_string()).collect(),
        rows,
    }
}

fn version_frame() -> Frame {
    frame(
        &["vendor", "library", "name", "version"],
        vec![vec![txt("acme"), txt("io"), txt("uart0"), txt("1.0")]],
    )
}

fn address_map_frame() -> Frame {
    frame(
        &["name", "offset", "range", "size"],
        vec![vec![txt("ctrl"), txt("0x1000"), txt("0x100"), num(32)]],
    )
}

fn ctrl_frame() -> Frame {
    frame(
        &["name", "offset", "size", "width", "attr", "reset", "desc"],
        vec![
            vec![
                txt("CR"),
                txt("0x0"),
                num(32),
                CellValue::Empty,
                CellValue::Empty,
                CellValue::Empty,
                CellValue::Empty,
            ],
            vec![
                txt("EN"),
                num(0),
                CellValue::Empty,
                num(1),
                txt("RW"),
                num(0),
                txt("enable bit"),
            ],
            vec![
                txt("MODE"),
                num(1),
                CellValue::Empty,
                num(2),
                txt("RW"),
                num(0),
                CellValue::Empty,
            ],
        ],
    )
}

fn document_of(kind: ExportFormat) -> (String, String) {
    let compo = build_component(scenario_pool()).unwrap();
    let engine = TemplateEngine::new(builtin_templates(), Vec::new()).unwrap();
    let plan = plan_export(kind, &engine, &compo).unwrap();
    match plan.payload {
        ExportPayload::Document { content } => (plan.extension, content),
        ExportPayload::Template { .. } => panic!("expected a structural document"),
    }
}

fn scenario_pool() -> SheetPool {
    let mut pool = SheetPool::new();
    pool.add("version".to_string(), version_frame());
    pool.add("address_map".to_string(), address_map_frame());
    pool.add("ctrl".to_string(), ctrl_frame());
    pool
}

#[test]
fn scenario_builds_expected_component() {
    let compo = build_component(scenario_pool()).unwrap();
    assert_eq!(compo.vendor, "acme");
    assert_eq!(compo.library, "io");
    assert_eq!(compo.name, "uart0");
    assert_eq!(compo.version, "1.0");
    assert_eq!(compo.blks.len(), 1);
    let blk = &compo.blks[0];
    assert_eq!(blk.name, "ctrl");
    assert_eq!(blk.offset, 0x1000);
    assert_eq!(blk.range, 0x100);
    assert_eq!(blk.size, 32);
    assert_eq!(blk.regs.len(), 1);
    let reg = &blk.regs[0];
    assert_eq!(reg.name, "CR");
    assert_eq!(reg.offset, 0);
    assert_eq!(reg.size, 32);
    assert_eq!(reg.fields.len(), 2);
    assert_eq!(reg.fields[0].name, "EN");
    assert_eq!(reg.fields[0].offset, 0);
    assert_eq!(reg.fields[0].width, 1);
    assert_eq!(reg.fields[0].attr, AccessKind::ReadWrite);
    assert_eq!(reg.fields[1].name, "MODE");
    assert_eq!(reg.fields[1].offset, 1);
    assert_eq!(reg.fields[1].width, 2);
    assert_eq!(reg.fields[1].desc, "");
}

#[test]
fn scenario_regvue_lists_cr_fields_in_order() {
    let (extension, content) = document_of(ExportFormat::Regvue);
    assert_eq!(extension, "json");
    let v: serde_json::Value = serde_json::from_str(&content).unwrap();
    let fields = v["elements"]["ctrl.CR"]["fields"].as_array().unwrap();
    assert_eq!(fields.len(), 2);
    assert_eq!(fields[0]["name"].as_str(), Some("EN"));
    assert_eq!(fields[1]["name"].as_str(), Some("MODE"));
    assert_eq!(v["elements"]["ctrl.CR"]["type"].as_str(), Some("reg"));
    assert_eq!(v["elements"]["ctrl"]["type"].as_str(), Some("blk"));
    assert_eq!(v["root"]["children"][0].as_str(), Some("ctrl"));
}

#[test]
fn missing_version_sheet_fails_keyed_version() {
    let mut pool = SheetPool::new();
    pool.add("address_map".to_string(), address_map_frame());
    pool.add("ctrl".to_string(), ctrl_frame());
    match build_component(pool) {
        Err(Error::KeyNotFound { key }) => assert_eq!(key, "version"),
        other => panic!("expected missing-sheet error, got {:?}", other),
    }
}

#[test]
fn missing_address_map_sheet_fails_keyed_address_map() {
    let mut pool = SheetPool::new();
    pool.add("version".to_string(), version_frame());
    pool.add("ctrl".to_string(), ctrl_frame());
    match build_component(pool) {
        Err(Error::KeyNotFound { key }) => assert_eq!(key, "address_map"),
        other => panic!("expected missing-sheet error, got {:?}", other),
    }
}

#[test]
fn missing_block_sheet_fails_keyed_with_block_name() {
    let mut pool = SheetPool::new();
    pool.add("version".to_string(), version_frame());
    pool.add("address_map".to_string(), address_map_frame());
    match build_component(pool) {
        Err(Error::KeyNotFound { key }) => assert_eq!(key, "ctrl"),
        other => panic!("expected missing-sheet error, got {:?}", other),
    }
}

#[test]
fn bad_block_offset_literal_fails_with_value_parse() {
    let mut pool = SheetPool::new();
    pool.add("version".to_string(), version_frame());
    pool.add(
        "address_map".to_string(),
        frame(
            &["name", "offset", "range", "size"],
            vec![vec![txt("ctrl"), txt("0xzz"), txt("0x100"), num(32)]],
        ),
    );
    pool.add("ctrl".to_string(), ctrl_frame());
    match build_component(pool) {
        Err(Error::ValueParse { .. }) => {}
        other => panic!("expected value-parse error, got {:?}", other),
    }
}

#[test]
fn overlapping_fields_fail_validation() {
    let mut pool = SheetPool::new();
    pool.add("version".to_string(), version_frame());
    pool.add("address_map".to_string(), address_map_frame());
    pool.add(
        "ctrl".to_string(),
        frame(
            &["name", "offset", "size", "width", "attr", "reset", "desc"],
            vec![
                vec![
                    txt("CR"),
                    num(0),
                    num(32),
                    CellValue::Empty,
                    CellValue::Empty,
                    CellValue::Empty,
                    CellValue::Empty,
                ],
                vec![txt("A"), num(0), CellValue::Empty, num(4), txt("RW"), num(0), CellValue::Empty],
                vec![txt("B"), num(3), CellValue::Empty, num(2), txt("RO"), num(0), CellValue::Empty],
            ],
        ),
    );
    match build_component(pool) {
        Err(Error::Validation { message }) => {
            assert!(message.contains("CR"), "message should name the register: {}", message);
        }
        other => panic!("expected validation error, got {:?}", other),
    }
}

#[test]
fn field_outside_register_size_fails_validation() {
    let mut pool = SheetPool::new();
    pool.add("version".to_string(), version_frame());
    pool.add("address_map".to_string(), address_map_frame());
    pool.add(
        "ctrl".to_string(),
        frame(
            &["name", "offset", "size", "width", "attr", "reset", "desc"],
            vec![
                vec![
                    txt("CR"),
                    num(0),
                    num(8),
                    CellValue::Empty,
                    CellValue::Empty,
                    CellValue::Empty,
                    CellValue::Empty,
                ],
                vec![txt("A"), num(6), CellValue::Empty, num(4), txt("RW"), num(0), CellValue::Empty],
            ],
        ),
    );
    match build_component(pool) {
        Err(Error::Validation { .. }) => {}
        other => panic!("expected validation error, got {:?}", other),
    }
}

#[test]
fn register_offset_outside_block_range_fails_validation() {
    let mut pool = SheetPool::new();
    pool.add("version".to_string(), version_frame());
    pool.add(
        "address_map".to_string(),
        frame(
            &["name", "offset", "range", "size"],
            vec![vec![txt("ctrl"), txt("0x1000"), num(4), num(32)]],
        ),
    );
    pool.add(
        "ctrl".to_string(),
        frame(
            &["name", "offset", "size", "width", "attr", "reset", "desc"],
            vec![vec![
                txt("CR"),
                num(8),
                num(32),
                CellValue::Empty,
                CellValue::Empty,
                CellValue::Empty,
                CellValue::Empty,
            ]],
        ),
    );
    match build_component(pool) {
        Err(Error::Validation { .. }) => {}
        other => panic!("expected validation error, got {:?}", other),
    }
}

#[test]
fn fields_are_sorted_by_ascending_bit_offset() {
    let mut pool = SheetPool::new();
    pool.add("version".to_string(), version_frame());
    pool.add("address_map".to_string(), address_map_frame());
    pool.add(
        "ctrl".to_string(),
        frame(
            &["name", "offset", "size", "width", "attr", "reset", "desc"],
            vec![
                vec![
                    txt("CR"),
                    num(0),
                    num(32),
                    CellValue::Empty,
                    CellValue::Empty,
                    CellValue::Empty,
                    CellValue::Empty,
                ],
                vec![txt("HI"), num(8), CellValue::Empty, num(8), txt("RO"), num(0), CellValue::Empty],
                vec![txt("LO"), num(0), CellValue::Empty, num(8), txt("RW"), num(1), CellValue::Empty],
            ],
        ),
    );
    let compo = build_component(pool).unwrap();
    let fields = &compo.blks[0].regs[0].fields;
    assert_eq!(fields[0].name, "LO");
    assert_eq!(fields[1].name, "HI");
}

#[test]
fn load_from_sheets_carries_metadata() {
    let result = load_from_sheets(
        scenario_pool(),
        "/tmp/in".to_string(),
        "/tmp/in/regs.xlsx".to_string(),
        Some(1234),
    )
    .unwrap();
    assert_eq!(result.directory, "/tmp/in");
    assert_eq!(result.file, "/tmp/in/regs.xlsx");
    assert_eq!(result.file_size, Some(1234));
    assert_eq!(result.sheet_count, Some(3));
    assert_eq!(result.compo.name, "uart0");
}

#[test]
fn ipxact_output_reparses_to_the_same_tree() {
    let (extension, content) = document_of(ExportFormat::Ipxact);
    assert_eq!(extension, "xml");

    let mut reader = quick_xml::Reader::from_str(&content);
    let mut pairs: Vec<(String, String)> = Vec::new();
    let mut current = String::new();
    loop {
        match reader.read_event().unwrap() {
            quick_xml::events::Event::Start(e) => {
                current = e.name().0.to_string();
            }
            quick_xml::events::Event::Text(t) => {
                pairs.push((current.clone(), (&*t).to_string()));
            }
            quick_xml::events::Event::Eof => break,
            _ => {}
        }
    }
    let find = |tag: &str| -> Vec<String> {
        pairs
            .iter()
            .filter(|(k, _)| k == tag)
            .map(|(_, v)| v.clone())
            .collect()
    };
    assert_eq!(find("ipxact:vendor"), vec!["acme"]);
    assert_eq!(find("ipxact:library"), vec!["io"]);
    assert_eq!(find("ipxact:version"), vec!["1.0"]);
    let names = find("ipxact:name");
    assert!(names.contains(&"uart0".to_string()));
    assert!(names.contains(&"ctrl".to_string()));
    assert!(names.contains(&"CR".to_string()));
    assert!(names.contains(&"EN".to_string()));
    assert!(names.contains(&"MODE".to_string()));
    assert_eq!(find("ipxact:baseAddress"), vec!["0x1000"]);
    assert_eq!(find("ipxact:range"), vec!["0x100"]);
    assert_eq!(find("ipxact:addressOffset"), vec!["0x0"]);
    assert_eq!(find("ipxact:bitOffset"), vec!["0", "1"]);
    assert_eq!(find("ipxact:bitWidth"), vec!["1", "2"]);
    assert_eq!(find("ipxact:access"), vec!["read-write", "read-write"]);
}

#[test]
fn regvue_output_reparses_to_the_same_tree() {
    let (_, content) = document_of(ExportFormat::Regvue);
    let v: serde_json::Value = serde_json::from_str(&content).unwrap();
    assert_eq!(v["root"]["vendor"].as_str(), Some("acme"));
    assert_eq!(v["root"]["library"].as_str(), Some("io"));
    assert_eq!(v["root"]["name"].as_str(), Some("uart0"));
    assert_eq!(v["root"]["version"].as_str(), Some("1.0"));
    let blk = &v["elements"]["ctrl"];
    assert_eq!(blk["offset"].as_str(), Some("0x1000"));
    assert_eq!(blk["range"].as_str(), Some("0x100"));
    assert_eq!(blk["size"].as_str(), Some("32"));
    assert_eq!(blk["children"][0].as_str(), Some("ctrl.CR"));
    let reg = &v["elements"]["ctrl.CR"];
    assert_eq!(reg["name"].as_str(), Some("CR"));
    assert_eq!(reg["offset"].as_str(), Some("0x0"));
    assert_eq!(reg["size"].as_str(), Some("32"));
    let fields = reg["fields"].as_array().unwrap();
    assert_eq!(fields[0]["lsb"].as_str(), Some("0"));
    assert_eq!(fields[0]["nbits"].as_str(), Some("1"));
    assert_eq!(fields[0]["access"].as_str(), Some("RW"));
    assert_eq!(fields[0]["reset"].as_str(), Some("0x0"));
    assert_eq!(fields[0]["doc"].as_str(), Some("enable bit"));
    assert_eq!(fields[1]["lsb"].as_str(), Some("1"));
    assert_eq!(fields[1]["nbits"].as_str(), Some("2"));
}

#[test]
fn duplicate_block_names_fail_validation() {
    let mut pool = SheetPool::new();
    pool.add("version".to_string(), version_frame());
    pool.add(
        "address_map".to_string(),
        frame(
            &["name", "offset", "range", "size"],
            vec![
                vec![txt("ctrl"), txt("0x1000"), txt("0x100"), num(32)],
                vec![txt("ctrl"), txt("0x2000"), txt("0x100"), num(32)],
            ],
        ),
    );
    pool.add("ctrl".to_string(), ctrl_frame());
    // The second row's sheet was already consumed by the first, so the
    // missing-sheet error for the duplicate name comes first.
    match build_component(pool) {
        Err(Error::KeyNotFound { key }) => assert_eq!(key, "ctrl"),
        other => panic!("expected missing-sheet error, got {:?}", other),
    }
}

#[test]
fn special_characters_in_descriptions_are_escaped_in_both_formats() {
    let mut pool = SheetPool::new();
    pool.add("version".to_string(), version_frame());
    pool.add("address_map".to_string(), address_map_frame());
    pool.add(
        "ctrl".to_string(),
        frame(
            &["name", "offset", "size", "width", "attr", "reset", "desc"],
            vec![
                vec![
                    txt("CR"),
                    num(0),
                    num(32),
                    CellValue::Empty,
                    CellValue::Empty,
                    CellValue::Empty,
                    CellValue::Empty,
                ],
                vec![
                    txt("EN"),
                    num(0),
                    CellValue::Empty,
                    num(1),
                    txt("RW"),
                    num(0),
                    txt("set <on> & \"go\""),
                ],
            ],
        ),
    );
    let compo = build_component(pool).unwrap();
    let engine = TemplateEngine::new(builtin_templates(), Vec::new()).unwrap();

    let xml = match plan_export(ExportFormat::Ipxact, &engine, &compo).unwrap().payload {
        ExportPayload::Document { content } => content,
        ExportPayload::Template { .. } => panic!("expected a structural document"),
    };
    assert!(xml.contains("set &lt;on&gt; &amp; &quot;go&quot;"));

    let json = match plan_export(ExportFormat::Regvue, &engine, &compo).unwrap().payload {
        ExportPayload::Document { content } => content,
        ExportPayload::Template { .. } => panic!("expected a structural document"),
    };
    let v: serde_json::Value = serde_json::from_str(&json).unwrap();
    assert_eq!(
        v["elements"]["ctrl.CR"]["fields"][0]["doc"].as_str(),
        Some("set <on> & \"go\"")
    );
}

#[test]
fn reset_literals_accept_binary_notation() {
    let mut pool = SheetPool::new();
    pool.add("version".to_string(), version_frame());
    pool.add("address_map".to_string(), address_map_frame());
    pool.add(
        "ctrl".to_string(),
        frame(
            &["name", "offset", "size", "width", "attr", "reset", "desc"],
            vec![
                vec![
                    txt("CR"),
                    num(0),
                    num(32),
                    CellValue::Empty,
                    CellValue::Empty,
                    CellValue::Empty,
                    CellValue::Empty,
                ],
                vec![txt("A"), num(0), CellValue::Empty, num(4), txt("RW"), txt("0b101"), CellValue::Empty],
            ],
        ),
    );
    let compo = build_component(pool).unwrap();
    assert_eq!(compo.blks[0].regs[0].fields[0].reset, 5);
}

#[test]
fn numeric_version_cells_read_as_decimal_text() {
    let mut pool = SheetPool::new();
    pool.add(
        "version".to_string(),
        frame(
            &["vendor", "library", "name", "version"],
            vec![vec![txt("acme"), num(7), txt("uart0"), num(2)]],
        ),
    );
    pool.add("address_map".to_string(), address_map_frame());
    pool.add("ctrl".to_string(), ctrl_frame());
    let compo = build_component(pool).unwrap();
    assert_eq!(compo.library, "7");
    assert_eq!(compo.version, "2");
}

#[test]
fn control_characters_in_descriptions_stay_valid_json() {
    let mut pool = SheetPool::new();
    pool.add("version".to_string(), version_frame());
    pool.add("address_map".to_string(), address_map_frame());
    pool.add(
        "ctrl".to_string(),
        frame(
            &["name", "offset", "size", "width", "attr", "reset", "desc"],
            vec![
                vec![
                    txt("CR"),
                    num(0),
                    num(32),
                    CellValue::Empty,
                    CellValue::Empty,
                    CellValue::Empty,
                    CellValue::Empty,
                ],
                vec![
                    txt("EN"),
                    num(0),
                    CellValue::Empty,
                    num(1),
                    txt("RW"),
                    num(0),
                    txt("bell\u{7}and\u{1f}end"),
                ],
            ],
        ),
    );
    let compo = build_component(pool).unwrap();
    let engine = TemplateEngine::new(builtin_templates(), Vec::new()).unwrap();
    let out = match plan_export(ExportFormat::Regvue, &engine, &compo).unwrap().payload {
        ExportPayload::Document { content } => content,
        ExportPayload::Template { .. } => panic!("expected a structural document"),
    };
    let v: serde_json::Value = serde_json::from_str(&out).unwrap();
    assert_eq!(
        v["elements"]["ctrl.CR"]["fields"][0]["doc"].as_str(),
        Some("bell\u{7}and\u{1f}end")
    );
}

#[test]
fn error_messages_carry_their_class_prefix() {
    let mut pool = SheetPool::new();
    pool.add("address_map".to_string(), address_map_frame());
    let err = build_component(pool).unwrap_err();
    assert_eq!(err.message(), "missing sheet: version");
}

#[test]
fn malformed_version_sheet_is_distinguished_from_missing() {
    let mut pool = SheetPool::new();
    pool.add(
        "version".to_string(),
        frame(&["vendor", "library", "name", "version"], Vec::new()),
    );
    pool.add("address_map".to_string(), address_map_frame());
    pool.add("ctrl".to_string(), ctrl_frame());
    match build_component(pool) {
        Err(Error::Validation { .. }) => {}
        other => panic!("expected validation error, got {:?}", other),
    }
}
