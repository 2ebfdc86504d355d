//! The register explorer tree: pure logic that shapes a component into a
//! labelled tree of nodes — component, block, register and field levels —
//! and filters that tree by a normalized search query, keeping a node when
//! its own search text matches or any descendant's does.

use vstd::prelude::*;
use crate::ir::{Block, Component, Field, Register};
use crate::numlit::{spec_to_dec, to_dec_string};
use crate::strutil::{contains_str, spec_contains_seq, spec_lower, to_ascii_lower};

verus! {

/// The search text of a field node: its name, numbers, access token and
/// description, space-separated.
pub open spec fn spec_field_search(fld: Field) -> Seq<char> {
    fld.name@ + " "@ + spec_to_dec(fld.offset as nat) + " "@ + spec_to_dec(fld.width as nat)
        + " "@ + fld.attr.spec_token() + " "@ + spec_to_dec(fld.reset as nat) + " "@ + fld.desc@
}

/// The search text of a register node.
pub open spec fn spec_reg_search(reg: Register) -> Seq<char> {
    reg.name@ + " "@ + spec_to_dec(reg.offset as nat) + " "@ + spec_to_dec(reg.size as nat)
}

/// The search text of a block node.
pub open spec fn spec_block_search(blk: Block) -> Seq<char> {
    blk.name@ + " "@ + spec_to_dec(blk.offset as nat) + " "@ + spec_to_dec(blk.range as nat)
        + " "@ + spec_to_dec(blk.size as nat)
}

/// The search text of the root node.
pub open spec fn spec_root_search(c: Component) -> Seq<char> {
    c.vendor@ + " "@ + c.library@ + " "@ + c.name@ + " "@ + c.version@
}

/// Which row of the register map a tree node stands for.
#[derive(Debug, Clone, Copy, PartialEq, Eq, Structural)]
pub enum RegisterNodeKind {
    Component,
    Block { block_index: usize },
    Register { block_index: usize, register_index: usize },
    Field { block_index: usize, register_index: usize, field_index: usize },
}

/// One node of the explorer tree.
#[derive(Debug)]
pub struct TreeNode {
    pub id: String,
    pub label: String,
    pub search_text: String,
    pub kind: RegisterNodeKind,
    pub children: Vec<TreeNode>,
}

/// Search queries and search text are compared after ASCII lowercasing.
pub fn normalize(value: &str) -> (r: String)
    ensures
        r@ == spec_lower(value@),
{
    to_ascii_lower(value)
}

/// A node matches when its normalized search text contains the query or any
/// of its children matches.
pub open spec fn spec_node_matches(n: TreeNode, q: Seq<char>) -> bool
    decreases n,
{
    spec_contains_seq(spec_lower(n.search_text@), q) || spec_any_child_matches(n.children@, q)
}

pub open spec fn spec_any_child_matches(s: Seq<TreeNode>, q: Seq<char>) -> bool
    decreases s,
{
    if s.len() == 0 {
        false
    } else {
        spec_node_matches(s.last(), q) || spec_any_child_matches(s.drop_last(), q)
    }
}

/// How many children of a run match.
pub open spec fn spec_match_count(s: Seq<TreeNode>, q: Seq<char>) -> nat
    decreases s,
{
    if s.len() == 0 {
        0
    } else {
        spec_match_count(s.drop_last(), q) + if spec_node_matches(s.last(), q) {
            1nat
        } else {
            0nat
        }
    }
}

proof fn lemma_match_count_zero(s: Seq<TreeNode>, q: Seq<char>)
    ensures
        (spec_match_count(s, q) == 0) <==> !spec_any_child_matches(s, q),
    decreases s,
{
    if s.len() > 0 {
        lemma_match_count_zero(s.drop_last(), q);
    }
}

/// Filters a subtree by an already-normalized query: the node survives
/// exactly when it or a descendant matches, keeps its identity and kind, and
/// retains one child per matching child, in order.
pub fn filter_node(node: &TreeNode, query: &str) -> (r: Option<TreeNode>)
    ensures
        r is Some <==> spec_node_matches(*node, query@),
        r matches Some(out) ==> out.id@ == node.id@ && out.label@ == node.label@
            && out.search_text@ == node.search_text@ && out.kind == node.kind
            && out.children@.len() == spec_match_count(node.children@, query@),
    decreases *node,
{
    let mut kept: Vec<TreeNode> = Vec::new();
    let m = node.children.len();
    let mut i: usize = 0;
    while i < m
        invariant
            0 <= i <= m,
            m == node.children@.len(),
            kept@.len() == spec_match_count(node.children@.take(i as int), query@),
        decreases m - i,
    {
        proof {
            assert(node.children@.take(i + 1).drop_last() =~= node.children@.take(i as int));
            assert(node.children@.take(i + 1).last() == node.children@[i as int]);
        }
        if let Some(sub) = filter_node(&node.children[i], query) {
            kept.push(sub);
        }
        i += 1;
    }
    proof {
        assert(node.children@.take(m as int) =~= node.children@);
    }
    let lowered = normalize(node.search_text.as_str());
    let self_match = contains_str(lowered.as_str(), query);
    if self_match || kept.len() > 0 {
        proof {
            lemma_match_count_zero(node.children@, query@);
        }
        Some(
            TreeNode {
                id: node.id.clone(),
                label: node.label.clone(),
                search_text: node.search_text.clone(),
                kind: node.kind,
                children: kept,
            },
        )
    } else {
        proof {
            lemma_match_count_zero(node.children@, query@);
        }
        None
    }
}

/// The field node for field `f` of register `r` of block `b`.
pub open spec fn spec_field_node_ok(n: TreeNode, b: int, r: int, f: int, fld: Field) -> bool {
    &&& n.kind == (RegisterNodeKind::Field {
        block_index: b as usize,
        register_index: r as usize,
        field_index: f as usize,
    })
    &&& n.id@ == "field:"@ + spec_to_dec(b as nat) + ":"@ + spec_to_dec(r as nat) + ":"@
        + spec_to_dec(f as nat)
    &&& n.label@ == fld.name@
    &&& n.search_text@ == spec_field_search(fld)
    &&& n.children@.len() == 0
}

/// The register node for register `r` of block `b`.
pub open spec fn spec_reg_node_ok(n: TreeNode, b: int, r: int, reg: Register) -> bool {
    &&& n.kind == (RegisterNodeKind::Register {
        block_index: b as usize,
        register_index: r as usize,
    })
    &&& n.id@ == "register:"@ + spec_to_dec(b as nat) + ":"@ + spec_to_dec(r as nat)
    &&& n.label@ == reg.name@
    &&& n.search_text@ == spec_reg_search(reg)
    &&& n.children@.len() == reg.fields@.len()
    &&& forall|f: int|
        0 <= f < reg.fields@.len() ==> spec_field_node_ok(
            #[trigger] n.children@[f],
            b,
            r,
            f,
            reg.fields@[f],
        )
}

/// The block node for block `b`.
pub open spec fn spec_block_node_ok(n: TreeNode, b: int, blk: Block) -> bool {
    &&& n.kind == (RegisterNodeKind::Block { block_index: b as usize })
    &&& n.id@ == "block:"@ + spec_to_dec(b as nat)
    &&& n.label@ == blk.name@
    &&& n.search_text@ == spec_block_search(blk)
    &&& n.children@.len() == blk.regs@.len()
    &&& forall|r: int|
        0 <= r < blk.regs@.len() ==> spec_reg_node_ok(
            #[trigger] n.children@[r],
            b,
            r,
            blk.regs@[r],
        )
}

/// The full tree of a component: the root node and one node per block,
/// register and field, with positional ids.
pub open spec fn spec_tree_ok(root: TreeNode, c: Component) -> bool {
    &&& root.kind == RegisterNodeKind::Component
    &&& root.id@ == "component"@
    &&& root.label@ == c.name@
    &&& root.search_text@ == spec_root_search(c)
    &&& root.children@.len() == c.blks@.len()
    &&& forall|b: int|
        0 <= b < c.blks@.len() ==> spec_block_node_ok(#[trigger] root.children@[b], b, c.blks@[b])
}

fn space_join(base: &mut String, piece: &str)
    ensures
        final(base)@ == old(base)@ + " "@ + piece@,
{
    base.append(" ");
    base.append(piece);
}

/// Builds the full explorer tree for a component, one node per row of the
/// register map, labelled by name, with a positional id at every level.
pub fn build_full_tree(component: &Component) -> (root: TreeNode)
    ensures
        spec_tree_ok(root, *component),
{
    let nb = component.blks.len();
    let mut block_nodes: Vec<TreeNode> = Vec::new();
    let mut b: usize = 0;
    while b < nb
        invariant
            0 <= b <= nb,
            nb == component.blks@.len(),
            block_nodes@.len() == b,
            forall|t: int|
                0 <= t < b ==> spec_block_node_ok(
                    #[trigger] block_nodes@[t],
                    t,
                    component.blks@[t],
                ),
        decreases nb - b,
    {
        let blk = &component.blks[b];
        let nr = blk.regs.len();
        let mut reg_nodes: Vec<TreeNode> = Vec::new();
        let mut r: usize = 0;
        while r < nr
            invariant
                0 <= r <= nr,
                nr == blk.regs@.len(),
                reg_nodes@.len() == r,
                forall|t: int|
                    0 <= t < r ==> spec_reg_node_ok(
                        #[trigger] reg_nodes@[t],
                        b as int,
                        t,
                        blk.regs@[t],
                    ),
        decreases nr - r,
        {
            let reg = &blk.regs[r];
            let nf = reg.fields.len();
            let mut field_nodes: Vec<TreeNode> = Vec::new();
            let mut f: usize = 0;
            while f < nf
                invariant
                    0 <= f <= nf,
                    nf == reg.fields@.len(),
                    field_nodes@.len() == f,
                    forall|t: int|
                        0 <= t < f ==> spec_field_node_ok(
                            #[trigger] field_nodes@[t],
                            b as int,
                            r as int,
                            t,
                            reg.fields@[t],
                        ),
                decreases nf - f,
            {
                let fld = &reg.fields[f];
                let mut id = String::from_str("field:");
                let bs = to_dec_string(b as u64);
                id.append(bs.as_str());
                id.append(":");
                let rs = to_dec_string(r as u64);
                id.append(rs.as_str());
                id.append(":");
                let fs = to_dec_string(f as u64);
                id.append(fs.as_str());
                let mut search = fld.name.clone();
                let off = to_dec_string(fld.offset);
                space_join(&mut search, off.as_str());
                let wid = to_dec_string(fld.width);
                space_join(&mut search, wid.as_str());
                space_join(&mut search, fld.attr.token());
                let rst = to_dec_string(fld.reset);
                space_join(&mut search, rst.as_str());
                space_join(&mut search, fld.desc.as_str());
                let node = TreeNode {
                    id,
                    label: fld.name.clone(),
                    search_text: search,
                    kind: RegisterNodeKind::Field {
                        block_index: b,
                        register_index: r,
                        field_index: f,
                    },
                    children: Vec::new(),
                };
                proof {
                    assert(spec_field_node_ok(node, b as int, r as int, f as int, reg.fields@[f as int]));
                }
                field_nodes.push(node);
                f += 1;
            }
            let mut id = String::from_str("register:");
            let bs = to_dec_string(b as u64);
            id.append(bs.as_str());
            id.append(":");
            let rs = to_dec_string(r as u64);
            id.append(rs.as_str());
            let mut search = reg.name.clone();
            let off = to_dec_string(reg.offset);
            space_join(&mut search, off.as_str());
            let sz = to_dec_string(reg.size);
            space_join(&mut search, sz.as_str());
            let node = TreeNode {
                id,
                label: reg.name.clone(),
                search_text: search,
                kind: RegisterNodeKind::Register { block_index: b, register_index: r },
                children: field_nodes,
            };
            proof {
                assert(spec_reg_node_ok(node, b as int, r as int, blk.regs@[r as int]));
            }
            reg_nodes.push(node);
            r += 1;
        }
        let mut id = String::from_str("block:");
        let bs = to_dec_string(b as u64);
        id.append(bs.as_str());
        let mut search = blk.name.clone();
        let off = to_dec_string(blk.offset);
        space_join(&mut search, off.as_str());
        let rng = to_dec_string(blk.range);
        space_join(&mut search, rng.as_str());
        let sz = to_dec_string(blk.size);
        space_join(&mut search, sz.as_str());
        let node = TreeNode {
            id,
            label: blk.name.clone(),
            search_text: search,
            kind: RegisterNodeKind::Block { block_index: b },
            children: reg_nodes,
        };
        proof {
            assert(spec_block_node_ok(node, b as int, component.blks@[b as int]));
        }
        block_nodes.push(node);
        b += 1;
    }
    let mut search = component.vendor.clone();
    space_join(&mut search, component.library.as_str());
    space_join(&mut search, component.name.as_str());
    space_join(&mut search, component.version.as_str());
    let root = TreeNode {
        id: String::from_str("component"),
        label: component.name.clone(),
        search_text: search,
        kind: RegisterNodeKind::Component,
        children: block_nodes,
    };
    root
}

} // verus!
