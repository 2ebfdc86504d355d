//! The IP-XACT adapter: a pure tree-to-tree transform from the IR into the
//! component/memoryMap/addressBlock/register/field hierarchy of IEEE 1685,
//! with hexadecimal address formatting, and its serialization to an XML
//! document. The transform is a structural round-trip: an abstraction
//! function recovers the IR tree from the adapter's output.

use vstd::prelude::*;
use crate::error::Error;
use crate::ir::{AccessKind, BlockView, Component, ComponentView, FieldView, RegisterView};
use crate::numlit::{
    lemma_parse_dec_literal, lemma_parse_hex_literal, spec_parse_u64, spec_to_dec, spec_to_hex,
    to_dec_string, to_hex_literal,
};
use crate::textesc::{spec_xml_escape, xml_escape};

verus! {

/// A bit field as IP-XACT writes it: positions in decimal, the reset value
/// as a `0x` literal, the access kind split into an access token and a read
/// action (`clear` marks clear-on-read).
#[derive(Debug, Clone, PartialEq)]
pub struct IpxactField {
    pub name: String,
    pub bit_offset: String,
    pub bit_width: String,
    pub access: String,
    pub read_action: String,
    pub reset: String,
    pub description: String,
}

/// A register as IP-XACT writes it: the offset as a `0x` literal, the size
/// in decimal.
#[derive(Debug, Clone, PartialEq)]
pub struct IpxactRegister {
    pub name: String,
    pub address_offset: String,
    pub size: String,
    pub fields: Vec<IpxactField>,
}

/// An address block as IP-XACT writes it: base address and range as `0x`
/// literals, the width in decimal.
#[derive(Debug, Clone, PartialEq)]
pub struct IpxactAddressBlock {
    pub name: String,
    pub base_address: String,
    pub range: String,
    pub width: String,
    pub registers: Vec<IpxactRegister>,
}

/// The root of the IP-XACT document shape.
#[derive(Debug, Clone, PartialEq)]
pub struct IpxactComponent {
    pub vendor: String,
    pub library: String,
    pub name: String,
    pub version: String,
    pub address_blocks: Vec<IpxactAddressBlock>,
}

#[verifier::ext_equal]
pub ghost struct IpxactFieldView {
    pub name: Seq<char>,
    pub bit_offset: Seq<char>,
    pub bit_width: Seq<char>,
    pub access: Seq<char>,
    pub read_action: Seq<char>,
    pub reset: Seq<char>,
    pub description: Seq<char>,
}

#[verifier::ext_equal]
pub ghost struct IpxactRegisterView {
    pub name: Seq<char>,
    pub address_offset: Seq<char>,
    pub size: Seq<char>,
    pub fields: Seq<IpxactFieldView>,
}

#[verifier::ext_equal]
pub ghost struct IpxactAddressBlockView {
    pub name: Seq<char>,
    pub base_address: Seq<char>,
    pub range: Seq<char>,
    pub width: Seq<char>,
    pub registers: Seq<IpxactRegisterView>,
}

#[verifier::ext_equal]
pub ghost struct IpxactComponentView {
    pub vendor: Seq<char>,
    pub library: Seq<char>,
    pub name: Seq<char>,
    pub version: Seq<char>,
    pub address_blocks: Seq<IpxactAddressBlockView>,
}

impl View for IpxactField {
    type V = IpxactFieldView;

    open spec fn view(&self) -> IpxactFieldView {
        IpxactFieldView {
            name: self.name@,
            bit_offset: self.bit_offset@,
            bit_width: self.bit_width@,
            access: self.access@,
            read_action: self.read_action@,
            reset: self.reset@,
            description: self.description@,
        }
    }
}

impl View for IpxactRegister {
    type V = IpxactRegisterView;

    open spec fn view(&self) -> IpxactRegisterView {
        IpxactRegisterView {
            name: self.name@,
            address_offset: self.address_offset@,
            size: self.size@,
            fields: self.fields@.map_values(|f: IpxactField| f@),
        }
    }
}

impl View for IpxactAddressBlock {
    type V = IpxactAddressBlockView;

    open spec fn view(&self) -> IpxactAddressBlockView {
        IpxactAddressBlockView {
            name: self.name@,
            base_address: self.base_address@,
            range: self.range@,
            width: self.width@,
            registers: self.registers@.map_values(|r: IpxactRegister| r@),
        }
    }
}

impl View for IpxactComponent {
    type V = IpxactComponentView;

    open spec fn view(&self) -> IpxactComponentView {
        IpxactComponentView {
            vendor: self.vendor@,
            library: self.library@,
            name: self.name@,
            version: self.version@,
            address_blocks: self.address_blocks@.map_values(|b: IpxactAddressBlock| b@),
        }
    }
}

/// The IP-XACT access token of an access kind.
pub open spec fn spec_access_token(k: AccessKind) -> Seq<char> {
    match k {
        AccessKind::ReadWrite => "read-write"@,
        AccessKind::ReadOnly => "read-only"@,
        AccessKind::WriteOnly => "write-only"@,
        AccessKind::ClearOnRead => "read-only"@,
    }
}

/// The IP-XACT read action of an access kind: `clear` for clear-on-read.
pub open spec fn spec_read_action(k: AccessKind) -> Seq<char> {
    match k {
        AccessKind::ClearOnRead => "clear"@,
        _ => Seq::empty(),
    }
}

/// The access kind an IP-XACT access/readAction pair denotes.
pub open spec fn spec_abs_access(access: Seq<char>, read_action: Seq<char>) -> Option<AccessKind> {
    if access == "read-write"@ && read_action == Seq::<char>::empty() {
        Some(AccessKind::ReadWrite)
    } else if access == "read-only"@ && read_action == "clear"@ {
        Some(AccessKind::ClearOnRead)
    } else if access == "read-only"@ && read_action == Seq::<char>::empty() {
        Some(AccessKind::ReadOnly)
    } else if access == "write-only"@ && read_action == Seq::<char>::empty() {
        Some(AccessKind::WriteOnly)
    } else {
        None
    }
}

/// What the adapter writes for one field.
pub open spec fn spec_ipxact_field(f: FieldView) -> IpxactFieldView {
    IpxactFieldView {
        name: f.name,
        bit_offset: spec_to_dec(f.offset as nat),
        bit_width: spec_to_dec(f.width as nat),
        access: spec_access_token(f.attr),
        read_action: spec_read_action(f.attr),
        reset: seq!['0', 'x'] + spec_to_hex(f.reset as nat),
        description: f.desc,
    }
}

/// What the adapter writes for one register.
pub open spec fn spec_ipxact_register(r: RegisterView) -> IpxactRegisterView {
    IpxactRegisterView {
        name: r.name,
        address_offset: seq!['0', 'x'] + spec_to_hex(r.offset as nat),
        size: spec_to_dec(r.size as nat),
        fields: r.fields.map_values(|f: FieldView| spec_ipxact_field(f)),
    }
}

/// What the adapter writes for one address block.
pub open spec fn spec_ipxact_block(b: BlockView) -> IpxactAddressBlockView {
    IpxactAddressBlockView {
        name: b.name,
        base_address: seq!['0', 'x'] + spec_to_hex(b.offset as nat),
        range: seq!['0', 'x'] + spec_to_hex(b.range as nat),
        width: spec_to_dec(b.size as nat),
        registers: b.regs.map_values(|r: RegisterView| spec_ipxact_register(r)),
    }
}

/// What the adapter writes for a whole component.
pub open spec fn spec_ipxact_of(c: ComponentView) -> IpxactComponentView {
    IpxactComponentView {
        vendor: c.vendor,
        library: c.library,
        name: c.name,
        version: c.version,
        address_blocks: c.blks.map_values(|b: BlockView| spec_ipxact_block(b)),
    }
}

/// The IR field an IP-XACT field denotes, if its literals parse.
pub open spec fn spec_abs_field(f: IpxactFieldView) -> Option<FieldView> {
    match spec_parse_u64(f.bit_offset, false) {
        Some(offset) => match spec_parse_u64(f.bit_width, false) {
            Some(width) => match spec_parse_u64(f.reset, false) {
                Some(reset) => match spec_abs_access(f.access, f.read_action) {
                    Some(attr) => Some(
                        FieldView {
                            name: f.name,
                            offset,
                            width,
                            attr,
                            reset,
                            desc: f.description,
                        },
                    ),
                    None => None,
                },
                None => None,
            },
            None => None,
        },
        None => None,
    }
}

/// All fields of a register, recovered in order.
pub open spec fn spec_abs_fields(s: Seq<IpxactFieldView>) -> Option<Seq<FieldView>>
    decreases s.len(),
{
    if s.len() == 0 {
        Some(Seq::empty())
    } else {
        match spec_abs_fields(s.drop_last()) {
            Some(rest) => match spec_abs_field(s.last()) {
                Some(f) => Some(rest.push(f)),
                None => None,
            },
            None => None,
        }
    }
}

/// The IR register an IP-XACT register denotes.
pub open spec fn spec_abs_register(r: IpxactRegisterView) -> Option<RegisterView> {
    match spec_parse_u64(r.address_offset, false) {
        Some(offset) => match spec_parse_u64(r.size, false) {
            Some(size) => match spec_abs_fields(r.fields) {
                Some(fields) => Some(RegisterView { name: r.name, offset, size, fields }),
                None => None,
            },
            None => None,
        },
        None => None,
    }
}

/// All registers of a block, recovered in order.
pub open spec fn spec_abs_registers(s: Seq<IpxactRegisterView>) -> Option<Seq<RegisterView>>
    decreases s.len(),
{
    if s.len() == 0 {
        Some(Seq::empty())
    } else {
        match spec_abs_registers(s.drop_last()) {
            Some(rest) => match spec_abs_register(s.last()) {
                Some(r) => Some(rest.push(r)),
                None => None,
            },
            None => None,
        }
    }
}

/// The IR block an IP-XACT address block denotes.
pub open spec fn spec_abs_block(b: IpxactAddressBlockView) -> Option<BlockView> {
    match spec_parse_u64(b.base_address, false) {
        Some(offset) => match spec_parse_u64(b.range, false) {
            Some(range) => match spec_parse_u64(b.width, false) {
                Some(size) => match spec_abs_registers(b.registers) {
                    Some(regs) => Some(BlockView { name: b.name, offset, range, size, regs }),
                    None => None,
                },
                None => None,
            },
            None => None,
        },
        None => None,
    }
}

/// All blocks of a component, recovered in order.
pub open spec fn spec_abs_blocks(s: Seq<IpxactAddressBlockView>) -> Option<Seq<BlockView>>
    decreases s.len(),
{
    if s.len() == 0 {
        Some(Seq::empty())
    } else {
        match spec_abs_blocks(s.drop_last()) {
            Some(rest) => match spec_abs_block(s.last()) {
                Some(b) => Some(rest.push(b)),
                None => None,
            },
            None => None,
        }
    }
}

/// The IR component an IP-XACT document shape denotes.
pub open spec fn spec_abs_component(x: IpxactComponentView) -> Option<ComponentView> {
    match spec_abs_blocks(x.address_blocks) {
        Some(blks) => Some(
            ComponentView {
                vendor: x.vendor,
                library: x.library,
                name: x.name,
                version: x.version,
                blks,
            },
        ),
        None => None,
    }
}

proof fn lemma_abs_field_roundtrip(f: FieldView)
    ensures
        spec_abs_field(spec_ipxact_field(f)) == Some(f),
{
    lemma_parse_dec_literal(f.offset, false);
    lemma_parse_dec_literal(f.width, false);
    lemma_parse_hex_literal(f.reset, false);
    reveal_strlit("read-write");
    reveal_strlit("read-only");
    reveal_strlit("write-only");
    reveal_strlit("clear");
    assert("read-write"@.len() == 10);
    assert("read-only"@.len() == 9);
    assert("write-only"@.len() == 10);
    assert("clear"@.len() == 5);
    assert("write-only"@[0] == 'w' && "read-write"@[0] == 'r');
    match f.attr {
        AccessKind::ReadWrite => {
            assert(spec_abs_access("read-write"@, Seq::empty()) == Some(AccessKind::ReadWrite));
        },
        AccessKind::ReadOnly => {
            assert(spec_abs_access("read-only"@, Seq::empty()) == Some(AccessKind::ReadOnly));
        },
        AccessKind::WriteOnly => {
            assert(spec_abs_access("write-only"@, Seq::empty()) == Some(AccessKind::WriteOnly));
        },
        AccessKind::ClearOnRead => {
            assert(spec_abs_access("read-only"@, "clear"@) == Some(AccessKind::ClearOnRead));
        },
    }
}

proof fn lemma_abs_fields_roundtrip(fs: Seq<FieldView>)
    ensures
        spec_abs_fields(fs.map_values(|f: FieldView| spec_ipxact_field(f))) == Some(fs),
    decreases fs.len(),
{
    let m = fs.map_values(|f: FieldView| spec_ipxact_field(f));
    if fs.len() == 0 {
        assert(m.len() == 0);
        assert(spec_abs_fields(m) == Some(Seq::<FieldView>::empty()));
        assert(Seq::<FieldView>::empty() =~= fs);
    } else {
        lemma_abs_fields_roundtrip(fs.drop_last());
        lemma_abs_field_roundtrip(fs.last());
        assert(m.drop_last() =~= fs.drop_last().map_values(|f: FieldView| spec_ipxact_field(f)));
        assert(m.last() == spec_ipxact_field(fs.last()));
        assert(fs.drop_last().push(fs.last()) =~= fs);
    }
}

proof fn lemma_abs_register_roundtrip(r: RegisterView)
    ensures
        spec_abs_register(spec_ipxact_register(r)) == Some(r),
{
    lemma_parse_hex_literal(r.offset, false);
    lemma_parse_dec_literal(r.size, false);
    lemma_abs_fields_roundtrip(r.fields);
}

proof fn lemma_abs_registers_roundtrip(rs: Seq<RegisterView>)
    ensures
        spec_abs_registers(rs.map_values(|r: RegisterView| spec_ipxact_register(r))) == Some(rs),
    decreases rs.len(),
{
    let m = rs.map_values(|r: RegisterView| spec_ipxact_register(r));
    if rs.len() == 0 {
        assert(m.len() == 0);
        assert(Seq::<RegisterView>::empty() =~= rs);
    } else {
        lemma_abs_registers_roundtrip(rs.drop_last());
        lemma_abs_register_roundtrip(rs.last());
        assert(m.drop_last() =~= rs.drop_last().map_values(
            |r: RegisterView| spec_ipxact_register(r),
        ));
        assert(m.last() == spec_ipxact_register(rs.last()));
        assert(rs.drop_last().push(rs.last()) =~= rs);
    }
}

proof fn lemma_abs_block_roundtrip(b: BlockView)
    ensures
        spec_abs_block(spec_ipxact_block(b)) == Some(b),
{
    lemma_parse_hex_literal(b.offset, false);
    lemma_parse_hex_literal(b.range, false);
    lemma_parse_dec_literal(b.size, false);
    lemma_abs_registers_roundtrip(b.regs);
}

proof fn lemma_abs_blocks_roundtrip(bs: Seq<BlockView>)
    ensures
        spec_abs_blocks(bs.map_values(|b: BlockView| spec_ipxact_block(b))) == Some(bs),
    decreases bs.len(),
{
    let m = bs.map_values(|b: BlockView| spec_ipxact_block(b));
    if bs.len() == 0 {
        assert(m.len() == 0);
        assert(Seq::<BlockView>::empty() =~= bs);
    } else {
        lemma_abs_blocks_roundtrip(bs.drop_last());
        lemma_abs_block_roundtrip(bs.last());
        assert(m.drop_last() =~= bs.drop_last().map_values(
            |b: BlockView| spec_ipxact_block(b),
        ));
        assert(m.last() == spec_ipxact_block(bs.last()));
        assert(bs.drop_last().push(bs.last()) =~= bs);
    }
}

/// The IP-XACT transform is a structural round-trip: abstracting the
/// adapter's output recovers the same vendor/library/name/version and the
/// same block/register/field tree, for any component.
pub proof fn lemma_ipxact_roundtrip(c: ComponentView)
    ensures
        spec_abs_component(spec_ipxact_of(c)) == Some(c),
{
    lemma_abs_blocks_roundtrip(c.blks);
    assert(spec_abs_component(spec_ipxact_of(c)) matches Some(r) && r =~= c);
}

fn access_token(k: AccessKind) -> (r: &'static str)
    ensures
        r@ == spec_access_token(k),
{
    match k {
        AccessKind::ReadWrite => "read-write",
        AccessKind::ReadOnly => "read-only",
        AccessKind::WriteOnly => "write-only",
        AccessKind::ClearOnRead => "read-only",
    }
}

fn read_action(k: AccessKind) -> (r: &'static str)
    ensures
        r@ == spec_read_action(k),
{
    proof {
        reveal_strlit("");
    }
    match k {
        AccessKind::ClearOnRead => "clear",
        _ => "",
    }
}

/// Maps a validated component into the IP-XACT document shape. The transform
/// is total: every component is representable.
pub fn ipxact_component_of(c: &Component) -> (r: Result<IpxactComponent, Error>)
    ensures
        r matches Ok(x) && x@ == spec_ipxact_of(c@),
{
    let mut blocks: Vec<IpxactAddressBlock> = Vec::new();
    let nb = c.blks.len();
    let mut i: usize = 0;
    while i < nb
        invariant
            0 <= i <= nb,
            nb == c.blks@.len(),
            blocks@.len() == i,
            forall|t: int|
                0 <= t < i ==> (#[trigger] blocks@[t])@ == spec_ipxact_block(c.blks@[t]@),
        decreases nb - i,
    {
        let blk = &c.blks[i];
        let mut registers: Vec<IpxactRegister> = Vec::new();
        let nr = blk.regs.len();
        let mut j: usize = 0;
        while j < nr
            invariant
                0 <= j <= nr,
                nr == blk.regs@.len(),
                registers@.len() == j,
                forall|t: int|
                    0 <= t < j ==> (#[trigger] registers@[t])@ == spec_ipxact_register(
                        blk.regs@[t]@,
                    ),
            decreases nr - j,
        {
            let reg = &blk.regs[j];
            let mut fields: Vec<IpxactField> = Vec::new();
            let nf = reg.fields.len();
            let mut k: usize = 0;
            while k < nf
                invariant
                    0 <= k <= nf,
                    nf == reg.fields@.len(),
                    fields@.len() == k,
                    forall|t: int|
                        0 <= t < k ==> (#[trigger] fields@[t])@ == spec_ipxact_field(
                            reg.fields@[t]@,
                        ),
                decreases nf - k,
            {
                let f = &reg.fields[k];
                let fout = IpxactField {
                    name: f.name.clone(),
                    bit_offset: to_dec_string(f.offset),
                    bit_width: to_dec_string(f.width),
                    access: String::from_str(access_token(f.attr)),
                    read_action: String::from_str(read_action(f.attr)),
                    reset: to_hex_literal(f.reset),
                    description: f.desc.clone(),
                };
                proof {
                    assert(fout@ == spec_ipxact_field(reg.fields@[k as int]@));
                }
                fields.push(fout);
                k += 1;
            }
            let rout = IpxactRegister {
                name: reg.name.clone(),
                address_offset: to_hex_literal(reg.offset),
                size: to_dec_string(reg.size),
                fields,
            };
            proof {
                assert(rout@.fields =~= spec_ipxact_register(reg@).fields) by {
                    assert forall|t: int| 0 <= t < nf implies rout@.fields[t]
                        == spec_ipxact_register(reg@).fields[t] by {
                        assert(rout@.fields[t] == rout.fields@[t]@);
                        assert(reg@.fields[t] == reg.fields@[t]@);
                        assert(spec_ipxact_register(reg@).fields[t] == spec_ipxact_field(
                            reg@.fields[t],
                        ));
                    }
                    assert(rout@.fields.len() == nf);
                    assert(spec_ipxact_register(reg@).fields.len() == nf);
                }
                assert(rout@ =~~= spec_ipxact_register(reg@));
                assert(rout@ == spec_ipxact_register(blk.regs@[j as int]@));
            }
            registers.push(rout);
            j += 1;
        }
        let bout = IpxactAddressBlock {
            name: blk.name.clone(),
            base_address: to_hex_literal(blk.offset),
            range: to_hex_literal(blk.range),
            width: to_dec_string(blk.size),
            registers,
        };
        proof {
            assert(bout@.registers =~= spec_ipxact_block(blk@).registers) by {
                assert forall|t: int| 0 <= t < nr implies bout@.registers[t]
                    == spec_ipxact_block(blk@).registers[t] by {
                    assert(bout@.registers[t] == bout.registers@[t]@);
                    assert(blk@.regs[t] == blk.regs@[t]@);
                    assert(spec_ipxact_block(blk@).registers[t] == spec_ipxact_register(
                        blk@.regs[t],
                    ));
                }
                assert(bout@.registers.len() == nr);
                assert(spec_ipxact_block(blk@).registers.len() == nr);
            }
            assert(bout@ =~~= spec_ipxact_block(blk@));
            assert(bout@ == spec_ipxact_block(c.blks@[i as int]@));
        }
        blocks.push(bout);
        i += 1;
    }
    let out = IpxactComponent {
        vendor: c.vendor.clone(),
        library: c.library.clone(),
        name: c.name.clone(),
        version: c.version.clone(),
        address_blocks: blocks,
    };
    proof {
        assert(out@.address_blocks =~= spec_ipxact_of(c@).address_blocks) by {
            assert forall|t: int| 0 <= t < nb implies out@.address_blocks[t]
                == spec_ipxact_of(c@).address_blocks[t] by {
                assert(out@.address_blocks[t] == out.address_blocks@[t]@);
                assert(c@.blks[t] == c.blks@[t]@);
                assert(spec_ipxact_of(c@).address_blocks[t] == spec_ipxact_block(c@.blks[t]));
            }
            assert(out@.address_blocks.len() == nb);
            assert(spec_ipxact_of(c@).address_blocks.len() == nb);
        }
        assert(out@ =~~= spec_ipxact_of(c@));
    }
    Ok(out)
}

/// The XML text of one field element.
pub open spec fn spec_field_xml(f: IpxactFieldView) -> Seq<char> {
    "<ipxact:field><ipxact:name>"@ + spec_xml_escape(f.name)
        + "</ipxact:name><ipxact:bitOffset>"@ + f.bit_offset
        + "</ipxact:bitOffset><ipxact:bitWidth>"@ + f.bit_width
        + "</ipxact:bitWidth><ipxact:access>"@ + f.access + "</ipxact:access>"@ + (
    if f.read_action.len() > 0 {
        "<ipxact:readAction>"@ + f.read_action + "</ipxact:readAction>"@
    } else {
        Seq::empty()
    }) + "<ipxact:resets><ipxact:reset><ipxact:value>"@ + f.reset
        + "</ipxact:value></ipxact:reset></ipxact:resets><ipxact:description>"@
        + spec_xml_escape(f.description) + "</ipxact:description></ipxact:field>"@
}

/// The XML text of a run of field elements, in order.
pub open spec fn spec_fields_xml(s: Seq<IpxactFieldView>) -> Seq<char>
    decreases s.len(),
{
    if s.len() == 0 {
        Seq::empty()
    } else {
        spec_fields_xml(s.drop_last()) + spec_field_xml(s.last())
    }
}

/// The XML text of one register element.
pub open spec fn spec_register_xml(r: IpxactRegisterView) -> Seq<char> {
    "<ipxact:register><ipxact:name>"@ + spec_xml_escape(r.name)
        + "</ipxact:name><ipxact:addressOffset>"@ + r.address_offset
        + "</ipxact:addressOffset><ipxact:size>"@ + r.size + "</ipxact:size>"@
        + spec_fields_xml(r.fields) + "</ipxact:register>"@
}

/// The XML text of a run of register elements, in order.
pub open spec fn spec_registers_xml(s: Seq<IpxactRegisterView>) -> Seq<char>
    decreases s.len(),
{
    if s.len() == 0 {
        Seq::empty()
    } else {
        spec_registers_xml(s.drop_last()) + spec_register_xml(s.last())
    }
}

/// The XML text of one address block element.
pub open spec fn spec_block_xml(b: IpxactAddressBlockView) -> Seq<char> {
    "<ipxact:addressBlock><ipxact:name>"@ + spec_xml_escape(b.name)
        + "</ipxact:name><ipxact:baseAddress>"@ + b.base_address
        + "</ipxact:baseAddress><ipxact:range>"@ + b.range + "</ipxact:range><ipxact:width>"@
        + b.width + "</ipxact:width>"@ + spec_registers_xml(b.registers)
        + "</ipxact:addressBlock>"@
}

/// The XML text of a run of address block elements, in order.
pub open spec fn spec_blocks_xml(s: Seq<IpxactAddressBlockView>) -> Seq<char>
    decreases s.len(),
{
    if s.len() == 0 {
        Seq::empty()
    } else {
        spec_blocks_xml(s.drop_last()) + spec_block_xml(s.last())
    }
}

/// The whole IP-XACT XML document for a component.
pub open spec fn spec_ipxact_xml(x: IpxactComponentView) -> Seq<char> {
    "<?xml version=\"1.0\" encoding=\"UTF-8\"?>"@
        + "<ipxact:component xmlns:ipxact=\"http://www.accellera.org/XMLSchema/IPXACT/1685-2014\">"@
        + "<ipxact:vendor>"@ + spec_xml_escape(x.vendor) + "</ipxact:vendor><ipxact:library>"@
        + spec_xml_escape(x.library) + "</ipxact:library><ipxact:name>"@ + spec_xml_escape(
        x.name,
    ) + "</ipxact:name><ipxact:version>"@ + spec_xml_escape(x.version)
        + "</ipxact:version><ipxact:memoryMaps><ipxact:memoryMap><ipxact:name>memory_map</ipxact:name>"@
        + spec_blocks_xml(x.address_blocks)
        + "</ipxact:memoryMap></ipxact:memoryMaps></ipxact:component>"@
}

fn field_xml(f: &IpxactField) -> (r: String)
    ensures
        r@ == spec_field_xml(f@),
{
    let mut s = String::from_str("<ipxact:field><ipxact:name>");
    let e = xml_escape(f.name.as_str());
    s.append(e.as_str());
    s.append("</ipxact:name><ipxact:bitOffset>");
    s.append(f.bit_offset.as_str());
    s.append("</ipxact:bitOffset><ipxact:bitWidth>");
    s.append(f.bit_width.as_str());
    s.append("</ipxact:bitWidth><ipxact:access>");
    s.append(f.access.as_str());
    s.append("</ipxact:access>");
    if f.read_action.as_str().unicode_len() > 0 {
        s.append("<ipxact:readAction>");
        s.append(f.read_action.as_str());
        s.append("</ipxact:readAction>");
    }
    s.append("<ipxact:resets><ipxact:reset><ipxact:value>");
    s.append(f.reset.as_str());
    s.append("</ipxact:value></ipxact:reset></ipxact:resets><ipxact:description>");
    let d = xml_escape(f.description.as_str());
    s.append(d.as_str());
    s.append("</ipxact:description></ipxact:field>");
    proof {
        assert(s@ =~= spec_field_xml(f@));
    }
    s
}

fn fields_xml(fs: &Vec<IpxactField>) -> (r: String)
    ensures
        r@ == spec_fields_xml(fs@.map_values(|f: IpxactField| f@)),
{
    let n = fs.len();
    let mut s = String::new();
    let mut i: usize = 0;
    while i < n
        invariant
            0 <= i <= n,
            n == fs@.len(),
            s@ == spec_fields_xml(fs@.take(i as int).map_values(|f: IpxactField| f@)),
        decreases n - i,
    {
        let piece = field_xml(&fs[i]);
        s.append(piece.as_str());
        proof {
            let m = fs@.take(i + 1).map_values(|f: IpxactField| f@);
            assert(m.drop_last() =~= fs@.take(i as int).map_values(|f: IpxactField| f@));
            assert(m.last() == fs@[i as int]@);
        }
        i += 1;
    }
    proof {
        assert(fs@.take(n as int) =~= fs@);
    }
    s
}

fn register_xml(r: &IpxactRegister) -> (out: String)
    ensures
        out@ == spec_register_xml(r@),
{
    let mut s = String::from_str("<ipxact:register><ipxact:name>");
    let e = xml_escape(r.name.as_str());
    s.append(e.as_str());
    s.append("</ipxact:name><ipxact:addressOffset>");
    s.append(r.address_offset.as_str());
    s.append("</ipxact:addressOffset><ipxact:size>");
    s.append(r.size.as_str());
    s.append("</ipxact:size>");
    let fx = fields_xml(&r.fields);
    s.append(fx.as_str());
    s.append("</ipxact:register>");
    proof {
        assert(s@ =~= spec_register_xml(r@));
    }
    s
}

fn registers_xml(rs: &Vec<IpxactRegister>) -> (out: String)
    ensures
        out@ == spec_registers_xml(rs@.map_values(|r: IpxactRegister| r@)),
{
    let n = rs.len();
    let mut s = String::new();
    let mut i: usize = 0;
    while i < n
        invariant
            0 <= i <= n,
            n == rs@.len(),
            s@ == spec_registers_xml(rs@.take(i as int).map_values(|r: IpxactRegister| r@)),
        decreases n - i,
    {
        let piece = register_xml(&rs[i]);
        s.append(piece.as_str());
        proof {
            let m = rs@.take(i + 1).map_values(|r: IpxactRegister| r@);
            assert(m.drop_last() =~= rs@.take(i as int).map_values(|r: IpxactRegister| r@));
            assert(m.last() == rs@[i as int]@);
        }
        i += 1;
    }
    proof {
        assert(rs@.take(n as int) =~= rs@);
    }
    s
}

fn block_xml(b: &IpxactAddressBlock) -> (out: String)
    ensures
        out@ == spec_block_xml(b@),
{
    let mut s = String::from_str("<ipxact:addressBlock><ipxact:name>");
    let e = xml_escape(b.name.as_str());
    s.append(e.as_str());
    s.append("</ipxact:name><ipxact:baseAddress>");
    s.append(b.base_address.as_str());
    s.append("</ipxact:baseAddress><ipxact:range>");
    s.append(b.range.as_str());
    s.append("</ipxact:range><ipxact:width>");
    s.append(b.width.as_str());
    s.append("</ipxact:width>");
    let rx = registers_xml(&b.registers);
    s.append(rx.as_str());
    s.append("</ipxact:addressBlock>");
    proof {
        assert(s@ =~= spec_block_xml(b@));
    }
    s
}

fn blocks_xml(bs: &Vec<IpxactAddressBlock>) -> (out: String)
    ensures
        out@ == spec_blocks_xml(bs@.map_values(|b: IpxactAddressBlock| b@)),
{
    let n = bs.len();
    let mut s = String::new();
    let mut i: usize = 0;
    while i < n
        invariant
            0 <= i <= n,
            n == bs@.len(),
            s@ == spec_blocks_xml(bs@.take(i as int).map_values(|b: IpxactAddressBlock| b@)),
        decreases n - i,
    {
        let piece = block_xml(&bs[i]);
        s.append(piece.as_str());
        proof {
            let m = bs@.take(i + 1).map_values(|b: IpxactAddressBlock| b@);
            assert(m.drop_last() =~= bs@.take(i as int).map_values(|b: IpxactAddressBlock| b@));
            assert(m.last() == bs@[i as int]@);
        }
        i += 1;
    }
    proof {
        assert(bs@.take(n as int) =~= bs@);
    }
    s
}

/// Serializes the IP-XACT document shape to UTF-8 XML text.
pub fn ipxact_xml(x: &IpxactComponent) -> (r: String)
    ensures
        r@ == spec_ipxact_xml(x@),
{
    let mut s = String::from_str("<?xml version=\"1.0\" encoding=\"UTF-8\"?>");
    s.append(
        "<ipxact:component xmlns:ipxact=\"http://www.accellera.org/XMLSchema/IPXACT/1685-2014\">",
    );
    s.append("<ipxact:vendor>");
    let ev = xml_escape(x.vendor.as_str());
    s.append(ev.as_str());
    s.append("</ipxact:vendor><ipxact:library>");
    let el = xml_escape(x.library.as_str());
    s.append(el.as_str());
    s.append("</ipxact:library><ipxact:name>");
    let en = xml_escape(x.name.as_str());
    s.append(en.as_str());
    s.append("</ipxact:name><ipxact:version>");
    let er = xml_escape(x.version.as_str());
    s.append(er.as_str());
    s.append(
        "</ipxact:version><ipxact:memoryMaps><ipxact:memoryMap><ipxact:name>memory_map</ipxact:name>",
    );
    let bx = blocks_xml(&x.address_blocks);
    s.append(bx.as_str());
    s.append("</ipxact:memoryMap></ipxact:memoryMaps></ipxact:component>");
    proof {
        assert(s@ =~= spec_ipxact_xml(x@));
    }
    s
}

} // verus!
