//! The RegVue adapter: a pure transform from the IR into a JSON document for
//! browser-based register visualization. The document keys its elements by
//! hierarchical path (`block` and `block.register`) with a type
//! discriminator, and lists each register's bit fields in ascending offset
//! order. The transform is a structural round-trip: an abstraction function
//! recovers the IR tree from the adapter's output.

use vstd::prelude::*;
use crate::error::Error;
use crate::ir::{AccessKind, BlockView, Component, ComponentView, FieldView, RegisterView};
use crate::numlit::{
    lemma_parse_dec_literal, lemma_parse_hex_literal, spec_parse_u64, spec_to_dec, spec_to_hex,
    to_dec_string, to_hex_literal,
};
use crate::textesc::{spec_json_escape, json_escape};

verus! {

/// A bit field as RegVue writes it: positions in decimal, the reset value as
/// a `0x` literal, the access kind as its short token.
#[derive(Debug, Clone, PartialEq)]
pub struct RegvueField {
    pub name: String,
    pub lsb: String,
    pub nbits: String,
    pub access: String,
    pub reset: String,
    pub doc: String,
}

/// A register element, keyed by its `block.register` path.
#[derive(Debug, Clone, PartialEq)]
pub struct RegvueRegister {
    pub path: String,
    pub name: String,
    pub offset: String,
    pub size: String,
    pub fields: Vec<RegvueField>,
}

/// An address block element, keyed by its block-name path.
#[derive(Debug, Clone, PartialEq)]
pub struct RegvueBlock {
    pub path: String,
    pub name: String,
    pub offset: String,
    pub range: String,
    pub size: String,
    pub regs: Vec<RegvueRegister>,
}

/// The RegVue document shape.
#[derive(Debug, Clone, PartialEq)]
pub struct RegvueDocument {
    pub vendor: String,
    pub library: String,
    pub name: String,
    pub version: String,
    pub blocks: Vec<RegvueBlock>,
}

#[verifier::ext_equal]
pub ghost struct RegvueFieldView {
    pub name: Seq<char>,
    pub lsb: Seq<char>,
    pub nbits: Seq<char>,
    pub access: Seq<char>,
    pub reset: Seq<char>,
    pub doc: Seq<char>,
}

#[verifier::ext_equal]
pub ghost struct RegvueRegisterView {
    pub path: Seq<char>,
    pub name: Seq<char>,
    pub offset: Seq<char>,
    pub size: Seq<char>,
    pub fields: Seq<RegvueFieldView>,
}

#[verifier::ext_equal]
pub ghost struct RegvueBlockView {
    pub path: Seq<char>,
    pub name: Seq<char>,
    pub offset: Seq<char>,
    pub range: Seq<char>,
    pub size: Seq<char>,
    pub regs: Seq<RegvueRegisterView>,
}

#[verifier::ext_equal]
pub ghost struct RegvueDocumentView {
    pub vendor: Seq<char>,
    pub library: Seq<char>,
    pub name: Seq<char>,
    pub version: Seq<char>,
    pub blocks: Seq<RegvueBlockView>,
}

impl View for RegvueField {
    type V = RegvueFieldView;

    open spec fn view(&self) -> RegvueFieldView {
        RegvueFieldView {
            name: self.name@,
            lsb: self.lsb@,
            nbits: self.nbits@,
            access: self.access@,
            reset: self.reset@,
            doc: self.doc@,
        }
    }
}

impl View for RegvueRegister {
    type V = RegvueRegisterView;

    open spec fn view(&self) -> RegvueRegisterView {
        RegvueRegisterView {
            path: self.path@,
            name: self.name@,
            offset: self.offset@,
            size: self.size@,
            fields: self.fields@.map_values(|f: RegvueField| f@),
        }
    }
}

impl View for RegvueBlock {
    type V = RegvueBlockView;

    open spec fn view(&self) -> RegvueBlockView {
        RegvueBlockView {
            path: self.path@,
            name: self.name@,
            offset: self.offset@,
            range: self.range@,
            size: self.size@,
            regs: self.regs@.map_values(|r: RegvueRegister| r@),
        }
    }
}

impl View for RegvueDocument {
    type V = RegvueDocumentView;

    open spec fn view(&self) -> RegvueDocumentView {
        RegvueDocumentView {
            vendor: self.vendor@,
            library: self.library@,
            name: self.name@,
            version: self.version@,
            blocks: self.blocks@.map_values(|b: RegvueBlock| b@),
        }
    }
}

/// The access kind a RegVue access token denotes.
pub open spec fn spec_abs_token(access: Seq<char>) -> Option<AccessKind> {
    if access == "RW"@ {
        Some(AccessKind::ReadWrite)
    } else if access == "RO"@ {
        Some(AccessKind::ReadOnly)
    } else if access == "WO"@ {
        Some(AccessKind::WriteOnly)
    } else if access == "RC"@ {
        Some(AccessKind::ClearOnRead)
    } else {
        None
    }
}

/// What the adapter writes for one field.
pub open spec fn spec_regvue_field(f: FieldView) -> RegvueFieldView {
    RegvueFieldView {
        name: f.name,
        lsb: spec_to_dec(f.offset as nat),
        nbits: spec_to_dec(f.width as nat),
        access: f.attr.spec_token(),
        reset: seq!['0', 'x'] + spec_to_hex(f.reset as nat),
        doc: f.desc,
    }
}

/// What the adapter writes for one register under its block's name.
pub open spec fn spec_regvue_register(blk_name: Seq<char>, r: RegisterView) -> RegvueRegisterView {
    RegvueRegisterView {
        path: blk_name + "."@ + r.name,
        name: r.name,
        offset: seq!['0', 'x'] + spec_to_hex(r.offset as nat),
        size: spec_to_dec(r.size as nat),
        fields: r.fields.map_values(|f: FieldView| spec_regvue_field(f)),
    }
}

/// What the adapter writes for one block.
pub open spec fn spec_regvue_block(b: BlockView) -> RegvueBlockView {
    RegvueBlockView {
        path: b.name,
        name: b.name,
        offset: seq!['0', 'x'] + spec_to_hex(b.offset as nat),
        range: seq!['0', 'x'] + spec_to_hex(b.range as nat),
        size: spec_to_dec(b.size as nat),
        regs: b.regs.map_values(|r: RegisterView| spec_regvue_register(b.name, r)),
    }
}

/// What the adapter writes for a whole component.
pub open spec fn spec_regvue_of(c: ComponentView) -> RegvueDocumentView {
    RegvueDocumentView {
        vendor: c.vendor,
        library: c.library,
        name: c.name,
        version: c.version,
        blocks: c.blks.map_values(|b: BlockView| spec_regvue_block(b)),
    }
}

/// The IR field a RegVue field denotes, if its literals parse.
pub open spec fn spec_abs_field(f: RegvueFieldView) -> Option<FieldView> {
    match spec_parse_u64(f.lsb, false) {
        Some(offset) => match spec_parse_u64(f.nbits, false) {
            Some(width) => match spec_parse_u64(f.reset, false) {
                Some(reset) => match spec_abs_token(f.access) {
                    Some(attr) => Some(
                        FieldView { name: f.name, offset, width, attr, reset, desc: f.doc },
                    ),
                    None => None,
                },
                None => None,
            },
            None => None,
        },
        None => None,
    }
}

/// All fields of a register, recovered in order.
pub open spec fn spec_abs_fields(s: Seq<RegvueFieldView>) -> Option<Seq<FieldView>>
    decreases s.len(),
{
    if s.len() == 0 {
        Some(Seq::empty())
    } else {
        match spec_abs_fields(s.drop_last()) {
            Some(rest) => match spec_abs_field(s.last()) {
                Some(f) => Some(rest.push(f)),
                None => None,
            },
            None => None,
        }
    }
}

/// The IR register a RegVue register element denotes.
pub open spec fn spec_abs_register(r: RegvueRegisterView) -> Option<RegisterView> {
    match spec_parse_u64(r.offset, false) {
        Some(offset) => match spec_parse_u64(r.size, false) {
            Some(size) => match spec_abs_fields(r.fields) {
                Some(fields) => Some(RegisterView { name: r.name, offset, size, fields }),
                None => None,
            },
            None => None,
        },
        None => None,
    }
}

/// All registers of a block, recovered in order.
pub open spec fn spec_abs_registers(s: Seq<RegvueRegisterView>) -> Option<Seq<RegisterView>>
    decreases s.len(),
{
    if s.len() == 0 {
        Some(Seq::empty())
    } else {
        match spec_abs_registers(s.drop_last()) {
            Some(rest) => match spec_abs_register(s.last()) {
                Some(r) => Some(rest.push(r)),
                None => None,
            },
            None => None,
        }
    }
}

/// The IR block a RegVue block element denotes.
pub open spec fn spec_abs_block(b: RegvueBlockView) -> Option<BlockView> {
    match spec_parse_u64(b.offset, false) {
        Some(offset) => match spec_parse_u64(b.range, false) {
            Some(range) => match spec_parse_u64(b.size, false) {
                Some(size) => match spec_abs_registers(b.regs) {
                    Some(regs) => Some(BlockView { name: b.name, offset, range, size, regs }),
                    None => None,
                },
                None => None,
            },
            None => None,
        },
        None => None,
    }
}

/// All blocks of a document, recovered in order.
pub open spec fn spec_abs_blocks(s: Seq<RegvueBlockView>) -> Option<Seq<BlockView>>
    decreases s.len(),
{
    if s.len() == 0 {
        Some(Seq::empty())
    } else {
        match spec_abs_blocks(s.drop_last()) {
            Some(rest) => match spec_abs_block(s.last()) {
                Some(b) => Some(rest.push(b)),
                None => None,
            },
            None => None,
        }
    }
}

/// The IR component a RegVue document denotes.
pub open spec fn spec_abs_document(d: RegvueDocumentView) -> Option<ComponentView> {
    match spec_abs_blocks(d.blocks) {
        Some(blks) => Some(
            ComponentView {
                vendor: d.vendor,
                library: d.library,
                name: d.name,
                version: d.version,
                blks,
            },
        ),
        None => None,
    }
}

proof fn lemma_abs_field_roundtrip(f: FieldView)
    ensures
        spec_abs_field(spec_regvue_field(f)) == Some(f),
{
    lemma_parse_dec_literal(f.offset, false);
    lemma_parse_dec_literal(f.width, false);
    lemma_parse_hex_literal(f.reset, false);
    reveal_strlit("RW");
    reveal_strlit("RO");
    reveal_strlit("WO");
    reveal_strlit("RC");
    assert("RW"@ =~= seq!['R', 'W']);
    assert("RO"@ =~= seq!['R', 'O']);
    assert("WO"@ =~= seq!['W', 'O']);
    assert("RC"@ =~= seq!['R', 'C']);
}

proof fn lemma_abs_fields_roundtrip(fs: Seq<FieldView>)
    ensures
        spec_abs_fields(fs.map_values(|f: FieldView| spec_regvue_field(f))) == Some(fs),
    decreases fs.len(),
{
    let m = fs.map_values(|f: FieldView| spec_regvue_field(f));
    if fs.len() == 0 {
        assert(m.len() == 0);
        assert(Seq::<FieldView>::empty() =~= fs);
    } else {
        lemma_abs_fields_roundtrip(fs.drop_last());
        lemma_abs_field_roundtrip(fs.last());
        assert(m.drop_last() =~= fs.drop_last().map_values(|f: FieldView| spec_regvue_field(f)));
        assert(m.last() == spec_regvue_field(fs.last()));
        assert(fs.drop_last().push(fs.last()) =~= fs);
    }
}

proof fn lemma_abs_register_roundtrip(blk_name: Seq<char>, r: RegisterView)
    ensures
        spec_abs_register(spec_regvue_register(blk_name, r)) == Some(r),
{
    lemma_parse_hex_literal(r.offset, false);
    lemma_parse_dec_literal(r.size, false);
    lemma_abs_fields_roundtrip(r.fields);
}

proof fn lemma_abs_registers_roundtrip(blk_name: Seq<char>, rs: Seq<RegisterView>)
    ensures
        spec_abs_registers(
            rs.map_values(|r: RegisterView| spec_regvue_register(blk_name, r)),
        ) == Some(rs),
    decreases rs.len(),
{
    let m = rs.map_values(|r: RegisterView| spec_regvue_register(blk_name, r));
    if rs.len() == 0 {
        assert(m.len() == 0);
        assert(Seq::<RegisterView>::empty() =~= rs);
    } else {
        lemma_abs_registers_roundtrip(blk_name, rs.drop_last());
        lemma_abs_register_roundtrip(blk_name, rs.last());
        assert(m.drop_last() =~= rs.drop_last().map_values(
            |r: RegisterView| spec_regvue_register(blk_name, r),
        ));
        assert(m.last() == spec_regvue_register(blk_name, rs.last()));
        assert(rs.drop_last().push(rs.last()) =~= rs);
    }
}

proof fn lemma_abs_block_roundtrip(b: BlockView)
    ensures
        spec_abs_block(spec_regvue_block(b)) == Some(b),
{
    lemma_parse_hex_literal(b.offset, false);
    lemma_parse_hex_literal(b.range, false);
    lemma_parse_dec_literal(b.size, false);
    lemma_abs_registers_roundtrip(b.name, b.regs);
}

proof fn lemma_abs_blocks_roundtrip(bs: Seq<BlockView>)
    ensures
        spec_abs_blocks(bs.map_values(|b: BlockView| spec_regvue_block(b))) == Some(bs),
    decreases bs.len(),
{
    let m = bs.map_values(|b: BlockView| spec_regvue_block(b));
    if bs.len() == 0 {
        assert(m.len() == 0);
        assert(Seq::<BlockView>::empty() =~= bs);
    } else {
        lemma_abs_blocks_roundtrip(bs.drop_last());
        lemma_abs_block_roundtrip(bs.last());
        assert(m.drop_last() =~= bs.drop_last().map_values(
            |b: BlockView| spec_regvue_block(b),
        ));
        assert(m.last() == spec_regvue_block(bs.last()));
        assert(bs.drop_last().push(bs.last()) =~= bs);
    }
}

/// The RegVue transform is a structural round-trip: abstracting the
/// adapter's output recovers the same vendor/library/name/version and the
/// same block/register/field tree, for any component.
pub proof fn lemma_regvue_roundtrip(c: ComponentView)
    ensures
        spec_abs_document(spec_regvue_of(c)) == Some(c),
{
    lemma_abs_blocks_roundtrip(c.blks);
    assert(spec_abs_document(spec_regvue_of(c)) matches Some(r) && r =~= c);
}

/// Maps a validated component into the RegVue document shape. The transform
/// is total: every component is representable.
pub fn regvue_document_of(c: &Component) -> (r: Result<RegvueDocument, Error>)
    ensures
        r matches Ok(d) && d@ == spec_regvue_of(c@),
{
    let mut blocks: Vec<RegvueBlock> = Vec::new();
    let nb = c.blks.len();
    let mut i: usize = 0;
    while i < nb
        invariant
            0 <= i <= nb,
            nb == c.blks@.len(),
            blocks@.len() == i,
            forall|t: int|
                0 <= t < i ==> (#[trigger] blocks@[t])@ == spec_regvue_block(c.blks@[t]@),
        decreases nb - i,
    {
        let blk = &c.blks[i];
        let mut registers: Vec<RegvueRegister> = Vec::new();
        let nr = blk.regs.len();
        let mut j: usize = 0;
        while j < nr
            invariant
                0 <= j <= nr,
                nr == blk.regs@.len(),
                registers@.len() == j,
                forall|t: int|
                    0 <= t < j ==> (#[trigger] registers@[t])@ == spec_regvue_register(
                        blk.name@,
                        blk.regs@[t]@,
                    ),
            decreases nr - j,
        {
            let reg = &blk.regs[j];
            let mut fields: Vec<RegvueField> = Vec::new();
            let nf = reg.fields.len();
            let mut k: usize = 0;
            while k < nf
                invariant
                    0 <= k <= nf,
                    nf == reg.fields@.len(),
                    fields@.len() == k,
                    forall|t: int|
                        0 <= t < k ==> (#[trigger] fields@[t])@ == spec_regvue_field(
                            reg.fields@[t]@,
                        ),
                decreases nf - k,
            {
                let f = &reg.fields[k];
                let fout = RegvueField {
                    name: f.name.clone(),
                    lsb: to_dec_string(f.offset),
                    nbits: to_dec_string(f.width),
                    access: String::from_str(f.attr.token()),
                    reset: to_hex_literal(f.reset),
                    doc: f.desc.clone(),
                };
                proof {
                    assert(fout@ == spec_regvue_field(reg.fields@[k as int]@));
                }
                fields.push(fout);
                k += 1;
            }
            let mut path = blk.name.clone();
            path.append(".");
            path.append(reg.name.as_str());
            let rout = RegvueRegister {
                path,
                name: reg.name.clone(),
                offset: to_hex_literal(reg.offset),
                size: to_dec_string(reg.size),
                fields,
            };
            proof {
                assert(rout@.fields =~= spec_regvue_register(blk.name@, reg@).fields) by {
                    assert forall|t: int| 0 <= t < nf implies rout@.fields[t]
                        == spec_regvue_register(blk.name@, reg@).fields[t] by {
                        assert(rout@.fields[t] == rout.fields@[t]@);
                        assert(reg@.fields[t] == reg.fields@[t]@);
                        assert(spec_regvue_register(blk.name@, reg@).fields[t]
                            == spec_regvue_field(reg@.fields[t]));
                    }
                    assert(rout@.fields.len() == nf);
                    assert(spec_regvue_register(blk.name@, reg@).fields.len() == nf);
                }
                assert(rout@ =~~= spec_regvue_register(blk.name@, reg@));
                assert(rout@ == spec_regvue_register(blk.name@, blk.regs@[j as int]@));
            }
            registers.push(rout);
            j += 1;
        }
        let bout = RegvueBlock {
            path: blk.name.clone(),
            name: blk.name.clone(),
            offset: to_hex_literal(blk.offset),
            range: to_hex_literal(blk.range),
            size: to_dec_string(blk.size),
            regs: registers,
        };
        proof {
            assert(bout@.regs =~= spec_regvue_block(blk@).regs) by {
                assert forall|t: int| 0 <= t < nr implies bout@.regs[t]
                    == spec_regvue_block(blk@).regs[t] by {
                    assert(bout@.regs[t] == bout.regs@[t]@);
                    assert(blk@.regs[t] == blk.regs@[t]@);
                    assert(spec_regvue_block(blk@).regs[t] == spec_regvue_register(
                        blk@.name,
                        blk@.regs[t],
                    ));
                }
                assert(bout@.regs.len() == nr);
                assert(spec_regvue_block(blk@).regs.len() == nr);
            }
            assert(bout@ =~~= spec_regvue_block(blk@));
            assert(bout@ == spec_regvue_block(c.blks@[i as int]@));
        }
        blocks.push(bout);
        i += 1;
    }
    let out = RegvueDocument {
        vendor: c.vendor.clone(),
        library: c.library.clone(),
        name: c.name.clone(),
        version: c.version.clone(),
        blocks,
    };
    proof {
        assert(out@.blocks =~= spec_regvue_of(c@).blocks) by {
            assert forall|t: int| 0 <= t < nb implies out@.blocks[t] == spec_regvue_of(
                c@,
            ).blocks[t] by {
                assert(out@.blocks[t] == out.blocks@[t]@);
                assert(c@.blks[t] == c.blks@[t]@);
                assert(spec_regvue_of(c@).blocks[t] == spec_regvue_block(c@.blks[t]));
            }
            assert(out@.blocks.len() == nb);
            assert(spec_regvue_of(c@).blocks.len() == nb);
        }
        assert(out@ =~~= spec_regvue_of(c@));
    }
    Ok(out)
}

/// The paths of a run of register elements.
pub open spec fn spec_reg_paths(s: Seq<RegvueRegisterView>) -> Seq<Seq<char>> {
    s.map_values(|r: RegvueRegisterView| r.path)
}

/// The paths of a run of block elements.
pub open spec fn spec_block_paths(s: Seq<RegvueBlockView>) -> Seq<Seq<char>> {
    s.map_values(|b: RegvueBlockView| b.path)
}

/// A JSON string literal: the escaped text between double quotes.
pub open spec fn spec_quote(s: Seq<char>) -> Seq<char> {
    "\""@ + spec_json_escape(s) + "\""@
}

/// The comma-separated quoted items of a JSON string array.
pub open spec fn spec_str_items(s: Seq<Seq<char>>) -> Seq<char>
    decreases s.len(),
{
    if s.len() == 0 {
        Seq::empty()
    } else if s.len() == 1 {
        spec_quote(s.last())
    } else {
        spec_str_items(s.drop_last()) + ", "@ + spec_quote(s.last())
    }
}

/// A JSON array of strings.
pub open spec fn spec_str_array(s: Seq<Seq<char>>) -> Seq<char> {
    "["@ + spec_str_items(s) + "]"@
}

/// The JSON object of one bit field, with its type discriminator.
pub open spec fn spec_field_json(f: RegvueFieldView) -> Seq<char> {
    "{\"type\": \"field\", \"name\": "@ + spec_quote(f.name) + ", \"lsb\": "@ + spec_quote(f.lsb)
        + ", \"nbits\": "@ + spec_quote(f.nbits) + ", \"access\": "@ + spec_quote(f.access)
        + ", \"reset\": "@ + spec_quote(f.reset) + ", \"doc\": "@ + spec_quote(f.doc) + "}"@
}

/// The comma-separated field objects of a register.
pub open spec fn spec_fields_items(s: Seq<RegvueFieldView>) -> Seq<char>
    decreases s.len(),
{
    if s.len() == 0 {
        Seq::empty()
    } else if s.len() == 1 {
        spec_field_json(s.last())
    } else {
        spec_fields_items(s.drop_last()) + ", "@ + spec_field_json(s.last())
    }
}

/// The keyed entry of one register element.
pub open spec fn spec_register_entry(r: RegvueRegisterView) -> Seq<char> {
    spec_quote(r.path) + ": {\"type\": \"reg\", \"name\": "@ + spec_quote(r.name)
        + ", \"offset\": "@ + spec_quote(r.offset) + ", \"size\": "@ + spec_quote(r.size)
        + ", \"fields\": ["@ + spec_fields_items(r.fields) + "]}"@
}

/// The register entries that follow a block entry, each preceded by the
/// entry separator.
pub open spec fn spec_register_entries(s: Seq<RegvueRegisterView>) -> Seq<char>
    decreases s.len(),
{
    if s.len() == 0 {
        Seq::empty()
    } else {
        spec_register_entries(s.drop_last()) + ",\n    "@ + spec_register_entry(s.last())
    }
}

/// The keyed entry of one block element.
pub open spec fn spec_block_entry(b: RegvueBlockView) -> Seq<char> {
    spec_quote(b.path) + ": {\"type\": \"blk\", \"name\": "@ + spec_quote(b.name)
        + ", \"offset\": "@ + spec_quote(b.offset) + ", \"range\": "@ + spec_quote(b.range)
        + ", \"size\": "@ + spec_quote(b.size) + ", \"children\": "@ + spec_str_array(spec_reg_paths(b.regs))
        + "}"@
}

/// A block's contribution to the elements object: its own entry followed by
/// one entry per register.
pub open spec fn spec_block_text(b: RegvueBlockView) -> Seq<char> {
    spec_block_entry(b) + spec_register_entries(b.regs)
}

/// The element entries of every block, in document order.
pub open spec fn spec_elements_text(s: Seq<RegvueBlockView>) -> Seq<char>
    decreases s.len(),
{
    if s.len() == 0 {
        Seq::empty()
    } else if s.len() == 1 {
        spec_block_text(s.last())
    } else {
        spec_elements_text(s.drop_last()) + ",\n    "@ + spec_block_text(s.last())
    }
}

/// The whole pretty-printed RegVue JSON document.
pub open spec fn spec_regvue_json(d: RegvueDocumentView) -> Seq<char> {
    "{\n  \"schema\": {\"name\": \"register-description-format\", \"version\": \"v1\"},\n  \"root\": {\"vendor\": "@
        + spec_quote(d.vendor) + ", \"library\": "@ + spec_quote(d.library) + ", \"name\": "@
        + spec_quote(d.name) + ", \"version\": "@ + spec_quote(d.version) + ", \"children\": "@
        + spec_str_array(spec_block_paths(d.blocks))
        + "},\n  \"elements\": "@ + (if d.blocks.len() == 0 {
        "{}"@
    } else {
        "{\n    "@ + spec_elements_text(d.blocks) + "\n  }"@
    }) + "\n}"@
}

fn jquote(s: &str) -> (r: String)
    ensures
        r@ == spec_quote(s@),
{
    let mut out = String::from_str("\"");
    let e = json_escape(s);
    out.append(e.as_str());
    out.append("\"");
    proof {
        assert(out@ =~= spec_quote(s@));
    }
    out
}

fn str_items(parts: &Vec<String>) -> (r: String)
    ensures
        r@ == spec_str_items(parts@.map_values(|p: String| p@)),
{
    let n = parts.len();
    let mut s = String::new();
    let mut i: usize = 0;
    while i < n
        invariant
            0 <= i <= n,
            n == parts@.len(),
            s@ == spec_str_items(parts@.take(i as int).map_values(|p: String| p@)),
        decreases n - i,
    {
        if i > 0 {
            s.append(", ");
        }
        let q = jquote(parts[i].as_str());
        s.append(q.as_str());
        proof {
            let m = parts@.take(i + 1).map_values(|p: String| p@);
            assert(m.drop_last() =~= parts@.take(i as int).map_values(|p: String| p@));
            assert(m.last() == parts@[i as int]@);
            if i == 0 {
                assert(m.len() == 1);
                assert(s@ =~= spec_str_items(m));
            } else {
                assert(s@ =~= spec_str_items(m));
            }
        }
        i += 1;
    }
    proof {
        assert(parts@.take(n as int) =~= parts@);
    }
    s
}

fn field_json(f: &RegvueField) -> (r: String)
    ensures
        r@ == spec_field_json(f@),
{
    let mut s = String::from_str("{\"type\": \"field\", \"name\": ");
    let q1 = jquote(f.name.as_str());
    s.append(q1.as_str());
    s.append(", \"lsb\": ");
    let q2 = jquote(f.lsb.as_str());
    s.append(q2.as_str());
    s.append(", \"nbits\": ");
    let q3 = jquote(f.nbits.as_str());
    s.append(q3.as_str());
    s.append(", \"access\": ");
    let q4 = jquote(f.access.as_str());
    s.append(q4.as_str());
    s.append(", \"reset\": ");
    let q5 = jquote(f.reset.as_str());
    s.append(q5.as_str());
    s.append(", \"doc\": ");
    let q6 = jquote(f.doc.as_str());
    s.append(q6.as_str());
    s.append("}");
    proof {
        assert(s@ =~= spec_field_json(f@));
    }
    s
}

fn fields_items(fs: &Vec<RegvueField>) -> (r: String)
    ensures
        r@ == spec_fields_items(fs@.map_values(|f: RegvueField| f@)),
{
    let n = fs.len();
    let mut s = String::new();
    let mut i: usize = 0;
    while i < n
        invariant
            0 <= i <= n,
            n == fs@.len(),
            s@ == spec_fields_items(fs@.take(i as int).map_values(|f: RegvueField| f@)),
        decreases n - i,
    {
        if i > 0 {
            s.append(", ");
        }
        let piece = field_json(&fs[i]);
        s.append(piece.as_str());
        proof {
            let m = fs@.take(i + 1).map_values(|f: RegvueField| f@);
            assert(m.drop_last() =~= fs@.take(i as int).map_values(|f: RegvueField| f@));
            assert(m.last() == fs@[i as int]@);
            assert(s@ =~= spec_fields_items(m));
        }
        i += 1;
    }
    proof {
        assert(fs@.take(n as int) =~= fs@);
    }
    s
}

fn register_entry(r: &RegvueRegister) -> (out: String)
    ensures
        out@ == spec_register_entry(r@),
{
    let mut s = jquote(r.path.as_str());
    s.append(": {\"type\": \"reg\", \"name\": ");
    let q1 = jquote(r.name.as_str());
    s.append(q1.as_str());
    s.append(", \"offset\": ");
    let q2 = jquote(r.offset.as_str());
    s.append(q2.as_str());
    s.append(", \"size\": ");
    let q3 = jquote(r.size.as_str());
    s.append(q3.as_str());
    s.append(", \"fields\": [");
    let fi = fields_items(&r.fields);
    s.append(fi.as_str());
    s.append("]}");
    proof {
        assert(s@ =~= spec_register_entry(r@));
    }
    s
}

#[verifier::rlimit(100)]
fn block_text(b: &RegvueBlock) -> (out: String)
    ensures
        out@ == spec_block_text(b@),
{
    let nr = b.regs.len();
    let mut paths: Vec<String> = Vec::new();
    let mut j: usize = 0;
    while j < nr
        invariant
            0 <= j <= nr,
            nr == b.regs@.len(),
            paths@.len() == j,
            forall|t: int| 0 <= t < j ==> (#[trigger] paths@[t])@ == b.regs@[t]@.path,
        decreases nr - j,
    {
        paths.push(b.regs[j].path.clone());
        j += 1;
    }
    let items = str_items(&paths);
    let mut s = jquote(b.path.as_str());
    s.append(": {\"type\": \"blk\", \"name\": ");
    let q1 = jquote(b.name.as_str());
    s.append(q1.as_str());
    s.append(", \"offset\": ");
    let q2 = jquote(b.offset.as_str());
    s.append(q2.as_str());
    s.append(", \"range\": ");
    let q3 = jquote(b.range.as_str());
    s.append(q3.as_str());
    s.append(", \"size\": ");
    let q4 = jquote(b.size.as_str());
    s.append(q4.as_str());
    s.append(", \"children\": ");
    s.append("[");
    s.append(items.as_str());
    s.append("]");
    s.append("}");
    proof {
        let lhs = paths@.map_values(|p: String| p@);
        let rhs = spec_reg_paths(b@.regs);
        assert(lhs =~= rhs) by {
            assert forall|t: int| 0 <= t < nr implies lhs[t] == rhs[t] by {
                assert(lhs[t] == paths@[t]@);
                assert(b@.regs[t] == b.regs@[t]@);
                assert(rhs[t] == b@.regs[t].path);
            }
            assert(lhs.len() == nr);
            assert(rhs.len() == nr);
        }
        assert(lhs == rhs);
        assert(items@ == spec_str_items(rhs));
        assert(s@ =~= spec_block_entry(b@));
        assert(b.regs@.take(0).map_values(|r: RegvueRegister| r@)
            =~= Seq::<RegvueRegisterView>::empty());
        assert(s@ =~= spec_block_entry(b@) + spec_register_entries(
            b.regs@.take(0).map_values(|r: RegvueRegister| r@),
        ));
    }
    let mut k: usize = 0;
    while k < nr
        invariant
            0 <= k <= nr,
            nr == b.regs@.len(),
            s@ == spec_block_entry(b@) + spec_register_entries(
                b.regs@.take(k as int).map_values(|r: RegvueRegister| r@),
            ),
        decreases nr - k,
    {
        s.append(",\n    ");
        let re = register_entry(&b.regs[k]);
        s.append(re.as_str());
        proof {
            let m = b.regs@.take(k + 1).map_values(|r: RegvueRegister| r@);
            assert(m.drop_last() =~= b.regs@.take(k as int).map_values(|r: RegvueRegister| r@));
            assert(m.last() == b.regs@[k as int]@);
            assert(s@ =~= spec_block_entry(b@) + spec_register_entries(m));
        }
        k += 1;
    }
    proof {
        assert(b.regs@.take(nr as int) =~= b.regs@);
        assert(b@.regs =~= b.regs@.map_values(|r: RegvueRegister| r@));
        assert(s@ =~= spec_block_text(b@));
    }
    s
}

/// Serializes the RegVue document shape to pretty-printed JSON text.
pub fn regvue_json(d: &RegvueDocument) -> (r: String)
    ensures
        r@ == spec_regvue_json(d@),
{
    let nb = d.blocks.len();
    let mut paths: Vec<String> = Vec::new();
    let mut j: usize = 0;
    while j < nb
        invariant
            0 <= j <= nb,
            nb == d.blocks@.len(),
            paths@.len() == j,
            forall|t: int| 0 <= t < j ==> (#[trigger] paths@[t])@ == d.blocks@[t]@.path,
        decreases nb - j,
    {
        paths.push(d.blocks[j].path.clone());
        j += 1;
    }
    let mut body = String::new();
    let mut k: usize = 0;
    while k < nb
        invariant
            0 <= k <= nb,
            nb == d.blocks@.len(),
            body@ == spec_elements_text(d.blocks@.take(k as int).map_values(|b: RegvueBlock| b@)),
        decreases nb - k,
    {
        if k > 0 {
            body.append(",\n    ");
        }
        let bt = block_text(&d.blocks[k]);
        body.append(bt.as_str());
        proof {
            let m = d.blocks@.take(k + 1).map_values(|b: RegvueBlock| b@);
            assert(m.drop_last() =~= d.blocks@.take(k as int).map_values(|b: RegvueBlock| b@));
            assert(m.last() == d.blocks@[k as int]@);
            assert(body@ =~= spec_elements_text(m));
        }
        k += 1;
    }
    let items = str_items(&paths);
    let mut s = String::from_str(
        "{\n  \"schema\": {\"name\": \"register-description-format\", \"version\": \"v1\"},\n  \"root\": {\"vendor\": ",
    );
    let q1 = jquote(d.vendor.as_str());
    s.append(q1.as_str());
    s.append(", \"library\": ");
    let q2 = jquote(d.library.as_str());
    s.append(q2.as_str());
    s.append(", \"name\": ");
    let q3 = jquote(d.name.as_str());
    s.append(q3.as_str());
    s.append(", \"version\": ");
    let q4 = jquote(d.version.as_str());
    s.append(q4.as_str());
    s.append(", \"children\": ");
    s.append("[");
    s.append(items.as_str());
    s.append("]");
    s.append("},\n  \"elements\": ");
    if d.blocks.len() == 0 {
        s.append("{}");
    } else {
        s.append("{\n    ");
        s.append(body.as_str());
        s.append("\n  }");
    }
    s.append("\n}");
    proof {
        let lhs = paths@.map_values(|p: String| p@);
        let rhs = spec_block_paths(d@.blocks);
        assert(lhs =~= rhs) by {
            assert forall|t: int| 0 <= t < nb implies lhs[t] == rhs[t] by {
                assert(lhs[t] == paths@[t]@);
                assert(d@.blocks[t] == d.blocks@[t]@);
                assert(rhs[t] == d@.blocks[t].path);
            }
            assert(lhs.len() == nb);
            assert(rhs.len() == nb);
        }
        assert(lhs == rhs);
        assert(items@ == spec_str_items(rhs));
        assert(d.blocks@.take(nb as int) =~= d.blocks@);
        assert(d@.blocks =~= d.blocks@.map_values(|b: RegvueBlock| b@));
        assert(body@ == spec_elements_text(d@.blocks));
        assert(s@ =~= spec_regvue_json(d@));
    }
    s
}

} // verus!
