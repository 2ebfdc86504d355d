//! Tests for the register explorer tree: full-tree shape and query
//! filtering.

use irgen::builder::build_component;
use irgen::regtree::{build_full_tree, filter_node, normalize, RegisterNodeKind};
use irgen::table::{CellValue, Frame, SheetPool};

fn word(s: &str) -> CellValue {
    CellValue::Text(s.to_string())
}

fn explorer_component() -> irgen::ir::Component {
    let mut pool = SheetPool::new();
    pool.add(
        "version".to_string(),
        Frame {
            columns: vec!["vendor".into(), "library".into(), "name".into(), "version".into()],
            rows: vec![vec![word("acme"), word("io"), word("uart0"), word("1.0")]],
        },
    );
    pool.add(
        "address_map".to_string(),
        Frame {
            columns: vec!["name".into(), "offset".into(), "range".into(), "size".into()],
            rows: vec![vec![word("ctrl"), word("0x1000"), word("0x100"), CellValue::Number(32)]],
        },
    );
    pool.add(
        "ctrl".to_string(),
        Frame {
            columns: vec![
                "name".into(),
                "offset".into(),
                "size".into(),
                "width".into(),
                "attr".into(),
                "reset".into(),
                "desc".into(),
            ],
            rows: vec![
                vec![
                    word("CR"),
                    word("0x0"),
                    CellValue::Number(32),
                    CellValue::Empty,
                    CellValue::Empty,
                    CellValue::Empty,
                    CellValue::Empty,
                ],
                vec![
                    word("EN"),
                    CellValue::Number(0),
                    CellValue::Empty,
                    CellValue::Number(1),
                    word("RW"),
                    CellValue::Number(0),
                    CellValue::Empty,
                ],
                vec![
                    word("MODE"),
                    CellValue::Number(1),
                    CellValue::Empty,
                    CellValue::Number(2),
                    word("RW"),
                    CellValue::Number(0),
                    CellValue::Empty,
                ],
            ],
        },
    );
    build_component(pool).unwrap()
}

#[test]
fn full_tree_mirrors_the_component_shape() {
    let compo = explorer_component();
    let root = build_full_tree(&compo);
    assert_eq!(root.id, "component");
    assert_eq!(root.label, "uart0");
    assert_eq!(root.kind, RegisterNodeKind::Component);
    assert_eq!(root.children.len(), 1);

    let blk = &root.children[0];
    assert_eq!(blk.id, "block:0");
    assert_eq!(blk.label, "ctrl");
    assert_eq!(blk.kind, RegisterNodeKind::Block { block_index: 0 });
    assert_eq!(blk.children.len(), 1);

    let reg = &blk.children[0];
    assert_eq!(reg.id, "register:0:0");
    assert_eq!(reg.label, "CR");
    assert_eq!(
        reg.kind,
        RegisterNodeKind::Register { block_index: 0, register_index: 0 }
    );
    assert_eq!(reg.children.len(), 2);

    assert_eq!(reg.children[0].id, "field:0:0:0");
    assert_eq!(reg.children[0].label, "EN");
    assert_eq!(reg.children[1].id, "field:0:0:1");
    assert_eq!(reg.children[1].label, "MODE");
    assert!(reg.children[1].children.is_empty());
}

#[test]
fn filtering_keeps_the_matching_branch_only() {
    let compo = explorer_component();
    let root = build_full_tree(&compo);
    let query = normalize("mode");
    let filtered = filter_node(&root, &query).expect("a field matches");
    assert_eq!(filtered.id, "component");
    assert_eq!(filtered.children.len(), 1);
    let blk = &filtered.children[0];
    assert_eq!(blk.children.len(), 1);
    let reg = &blk.children[0];
    assert_eq!(reg.children.len(), 1);
    assert_eq!(reg.children[0].label, "MODE");
}

#[test]
fn filtering_with_no_match_drops_the_tree() {
    let compo = explorer_component();
    let root = build_full_tree(&compo);
    let query = normalize("nothing-like-this");
    assert!(filter_node(&root, &query).is_none());
}

#[test]
fn filtering_matches_case_insensitively_through_normalize() {
    let compo = explorer_component();
    let root = build_full_tree(&compo);
    let query = normalize("CtRl");
    let filtered = filter_node(&root, &query).expect("the block matches");
    // Only the block's own text matches, so the block survives with no
    // register children of its own.
    assert_eq!(filtered.children.len(), 1);
    assert_eq!(filtered.children[0].label, "ctrl");
    assert!(filtered.children[0].children.is_empty());
}

#[test]
fn a_self_match_keeps_the_node_without_unmatching_children() {
    let compo = explorer_component();
    let root = build_full_tree(&compo);
    let query = normalize("acme");
    let filtered = filter_node(&root, &query).expect("the root matches");
    assert!(filtered.children.is_empty());
}
