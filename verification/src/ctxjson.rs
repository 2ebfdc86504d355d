//! The template rendering context as JSON text: the component's fields
//! hoisted to the context root for compatibility, and the whole component
//! again under the names `compo` and `component`. Numeric values are plain
//! JSON numbers so templates can format them as they please.

use vstd::prelude::*;
use crate::ir::{Block, BlockView, Component, ComponentView, Field, FieldView, Register,
    RegisterView};
use crate::numlit::{spec_to_dec, to_dec_string};
use crate::textesc::{spec_json_escape, json_escape};

verus! {

/// A JSON string literal: the escaped text between double quotes.
pub open spec fn spec_jstr(s: Seq<char>) -> Seq<char> {
    "\""@ + spec_json_escape(s) + "\""@
}

/// The JSON object of one field.
pub open spec fn spec_field_ctx(f: FieldView) -> Seq<char> {
    "{\"name\": "@ + spec_jstr(f.name) + ", \"offset\": "@ + spec_to_dec(f.offset as nat)
        + ", \"width\": "@ + spec_to_dec(f.width as nat) + ", \"attr\": "@ + spec_jstr(
        f.attr.spec_token(),
    ) + ", \"reset\": "@ + spec_to_dec(f.reset as nat) + ", \"desc\": "@ + spec_jstr(f.desc)
        + "}"@
}

/// The comma-separated field objects of a register.
pub open spec fn spec_fields_ctx(s: Seq<FieldView>) -> Seq<char>
    decreases s.len(),
{
    if s.len() == 0 {
        Seq::empty()
    } else if s.len() == 1 {
        spec_field_ctx(s.last())
    } else {
        spec_fields_ctx(s.drop_last()) + ", "@ + spec_field_ctx(s.last())
    }
}

/// The JSON object of one register.
pub open spec fn spec_register_ctx(r: RegisterView) -> Seq<char> {
    "{\"name\": "@ + spec_jstr(r.name) + ", \"offset\": "@ + spec_to_dec(r.offset as nat)
        + ", \"size\": "@ + spec_to_dec(r.size as nat) + ", \"fields\": ["@ + spec_fields_ctx(
        r.fields,
    ) + "]}"@
}

/// The comma-separated register objects of a block.
pub open spec fn spec_registers_ctx(s: Seq<RegisterView>) -> Seq<char>
    decreases s.len(),
{
    if s.len() == 0 {
        Seq::empty()
    } else if s.len() == 1 {
        spec_register_ctx(s.last())
    } else {
        spec_registers_ctx(s.drop_last()) + ", "@ + spec_register_ctx(s.last())
    }
}

/// The JSON object of one block.
pub open spec fn spec_block_ctx(b: BlockView) -> Seq<char> {
    "{\"name\": "@ + spec_jstr(b.name) + ", \"offset\": "@ + spec_to_dec(b.offset as nat)
        + ", \"range\": "@ + spec_to_dec(b.range as nat) + ", \"size\": "@ + spec_to_dec(
        b.size as nat,
    ) + ", \"regs\": ["@ + spec_registers_ctx(b.regs) + "]}"@
}

/// The comma-separated block objects of a component.
pub open spec fn spec_blocks_ctx(s: Seq<BlockView>) -> Seq<char>
    decreases s.len(),
{
    if s.len() == 0 {
        Seq::empty()
    } else if s.len() == 1 {
        spec_block_ctx(s.last())
    } else {
        spec_blocks_ctx(s.drop_last()) + ", "@ + spec_block_ctx(s.last())
    }
}

/// The members of the component object, without the surrounding braces.
pub open spec fn spec_component_members(c: ComponentView) -> Seq<char> {
    "\"vendor\": "@ + spec_jstr(c.vendor) + ", \"library\": "@ + spec_jstr(c.library)
        + ", \"name\": "@ + spec_jstr(c.name) + ", \"version\": "@ + spec_jstr(c.version)
        + ", \"blks\": ["@ + spec_blocks_ctx(c.blks) + "]"@
}

/// The whole rendering context: the component's members hoisted to the root,
/// and the component object under `compo` and `component`.
pub open spec fn spec_context_json(c: ComponentView) -> Seq<char> {
    "{"@ + spec_component_members(c) + ", \"compo\": {"@ + spec_component_members(c)
        + "}, \"component\": {"@ + spec_component_members(c) + "}}"@
}

fn jstr(s: &str) -> (r: String)
    ensures
        r@ == spec_jstr(s@),
{
    let mut out = String::from_str("\"");
    let e = json_escape(s);
    out.append(e.as_str());
    out.append("\"");
    proof {
        assert(out@ =~= spec_jstr(s@));
    }
    out
}

fn field_ctx(f: &Field) -> (r: String)
    ensures
        r@ == spec_field_ctx(f@),
{
    let mut s = String::from_str("{\"name\": ");
    let q = jstr(f.name.as_str());
    s.append(q.as_str());
    s.append(", \"offset\": ");
    let d1 = to_dec_string(f.offset);
    s.append(d1.as_str());
    s.append(", \"width\": ");
    let d2 = to_dec_string(f.width);
    s.append(d2.as_str());
    s.append(", \"attr\": ");
    let qa = jstr(f.attr.token());
    s.append(qa.as_str());
    s.append(", \"reset\": ");
    let d3 = to_dec_string(f.reset);
    s.append(d3.as_str());
    s.append(", \"desc\": ");
    let qd = jstr(f.desc.as_str());
    s.append(qd.as_str());
    s.append("}");
    proof {
        assert(s@ =~= spec_field_ctx(f@));
    }
    s
}

fn register_ctx(r: &Register) -> (out: String)
    ensures
        out@ == spec_register_ctx(r@),
{
    let nf = r.fields.len();
    let mut body = String::new();
    let mut k: usize = 0;
    while k < nf
        invariant
            0 <= k <= nf,
            nf == r.fields@.len(),
            body@ == spec_fields_ctx(r.fields@.take(k as int).map_values(|f: Field| f@)),
        decreases nf - k,
    {
        if k > 0 {
            body.append(", ");
        }
        let piece = field_ctx(&r.fields[k]);
        body.append(piece.as_str());
        proof {
            let m = r.fields@.take(k + 1).map_values(|f: Field| f@);
            assert(m.drop_last() =~= r.fields@.take(k as int).map_values(|f: Field| f@));
            assert(m.last() == r.fields@[k as int]@);
            assert(body@ =~= spec_fields_ctx(m));
        }
        k += 1;
    }
    let mut s = String::from_str("{\"name\": ");
    let q = jstr(r.name.as_str());
    s.append(q.as_str());
    s.append(", \"offset\": ");
    let d1 = to_dec_string(r.offset);
    s.append(d1.as_str());
    s.append(", \"size\": ");
    let d2 = to_dec_string(r.size);
    s.append(d2.as_str());
    s.append(", \"fields\": [");
    s.append(body.as_str());
    s.append("]}");
    proof {
        assert(r.fields@.take(nf as int) =~= r.fields@);
        assert(r@.fields =~= r.fields@.map_values(|f: Field| f@));
        assert(s@ =~= spec_register_ctx(r@));
    }
    s
}

fn block_ctx(b: &Block) -> (out: String)
    ensures
        out@ == spec_block_ctx(b@),
{
    let nr = b.regs.len();
    let mut body = String::new();
    let mut k: usize = 0;
    while k < nr
        invariant
            0 <= k <= nr,
            nr == b.regs@.len(),
            body@ == spec_registers_ctx(b.regs@.take(k as int).map_values(|r: Register| r@)),
        decreases nr - k,
    {
        if k > 0 {
            body.append(", ");
        }
        let piece = register_ctx(&b.regs[k]);
        body.append(piece.as_str());
        proof {
            let m = b.regs@.take(k + 1).map_values(|r: Register| r@);
            assert(m.drop_last() =~= b.regs@.take(k as int).map_values(|r: Register| r@));
            assert(m.last() == b.regs@[k as int]@);
            assert(body@ =~= spec_registers_ctx(m));
        }
        k += 1;
    }
    let mut s = String::from_str("{\"name\": ");
    let q = jstr(b.name.as_str());
    s.append(q.as_str());
    s.append(", \"offset\": ");
    let d1 = to_dec_string(b.offset);
    s.append(d1.as_str());
    s.append(", \"range\": ");
    let d2 = to_dec_string(b.range);
    s.append(d2.as_str());
    s.append(", \"size\": ");
    let d3 = to_dec_string(b.size);
    s.append(d3.as_str());
    s.append(", \"regs\": [");
    s.append(body.as_str());
    s.append("]}");
    proof {
        assert(b.regs@.take(nr as int) =~= b.regs@);
        assert(b@.regs =~= b.regs@.map_values(|r: Register| r@));
        assert(s@ =~= spec_block_ctx(b@));
    }
    s
}

fn component_members(c: &Component) -> (out: String)
    ensures
        out@ == spec_component_members(c@),
{
    let nb = c.blks.len();
    let mut body = String::new();
    let mut k: usize = 0;
    while k < nb
        invariant
            0 <= k <= nb,
            nb == c.blks@.len(),
            body@ == spec_blocks_ctx(c.blks@.take(k as int).map_values(|b: Block| b@)),
        decreases nb - k,
    {
        if k > 0 {
            body.append(", ");
        }
        let piece = block_ctx(&c.blks[k]);
        body.append(piece.as_str());
        proof {
            let m = c.blks@.take(k + 1).map_values(|b: Block| b@);
            assert(m.drop_last() =~= c.blks@.take(k as int).map_values(|b: Block| b@));
            assert(m.last() == c.blks@[k as int]@);
            assert(body@ =~= spec_blocks_ctx(m));
        }
        k += 1;
    }
    let mut s = String::from_str("\"vendor\": ");
    let q1 = jstr(c.vendor.as_str());
    s.append(q1.as_str());
    s.append(", \"library\": ");
    let q2 = jstr(c.library.as_str());
    s.append(q2.as_str());
    s.append(", \"name\": ");
    let q3 = jstr(c.name.as_str());
    s.append(q3.as_str());
    s.append(", \"version\": ");
    let q4 = jstr(c.version.as_str());
    s.append(q4.as_str());
    s.append(", \"blks\": [");
    s.append(body.as_str());
    s.append("]");
    proof {
        assert(c.blks@.take(nb as int) =~= c.blks@);
        assert(c@.blks =~= c.blks@.map_values(|b: Block| b@));
        assert(s@ =~= spec_component_members(c@));
    }
    s
}

/// Builds the rendering context JSON for a component.
pub fn context_json(c: &Component) -> (r: String)
    ensures
        r@ == spec_context_json(c@),
{
    let members = component_members(c);
    let mut s = String::from_str("{");
    s.append(members.as_str());
    s.append(", \"compo\": {");
    s.append(members.as_str());
    s.append("}, \"component\": {");
    s.append(members.as_str());
    s.append("}}");
    proof {
        assert(s@ =~= spec_context_json(c@));
    }
    s
}

} // verus!
