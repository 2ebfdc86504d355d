//! The intermediate representation: a `Component` owns `Block`s, a `Block`
//! owns `Register`s, a `Register` owns `Field`s. A successfully built tree is
//! well-formed: field bit ranges fit their register and do not overlap,
//! register offsets are unique and lie inside their block's range, names are
//! unique at every level and valid identifiers in every target language.

use vstd::prelude::*;
use crate::ident::spec_is_ident;

verus! {

/// The canonical access kind of a bit field.
#[derive(Debug, Clone, Copy, PartialEq, Eq, Structural)]
pub enum AccessKind {
    /// Software may read and write.
    ReadWrite,
    /// Software may only read.
    ReadOnly,
    /// Software may only write.
    WriteOnly,
    /// Reading clears the value.
    ClearOnRead,
}

impl AccessKind {
    /// The token used for this kind in rendered artifacts.
    pub fn token(&self) -> (r: &'static str)
        ensures
            r@ == self.spec_token(),
    {
        proof {
            reveal_strlit("RW");
            reveal_strlit("RO");
            reveal_strlit("WO");
            reveal_strlit("RC");
        }
        match self {
            AccessKind::ReadWrite => "RW",
            AccessKind::ReadOnly => "RO",
            AccessKind::WriteOnly => "WO",
            AccessKind::ClearOnRead => "RC",
        }
    }

    /// The token of each kind, at the specification level.
    pub open spec fn spec_token(self) -> Seq<char> {
        match self {
            AccessKind::ReadWrite => "RW"@,
            AccessKind::ReadOnly => "RO"@,
            AccessKind::WriteOnly => "WO"@,
            AccessKind::ClearOnRead => "RC"@,
        }
    }
}

/// A named sub-range of bits within a register.
#[derive(Debug, Clone, PartialEq)]
pub struct Field {
    pub name: String,
    /// Starting bit within the register.
    pub offset: u64,
    /// Bit count.
    pub width: u64,
    /// Access kind.
    pub attr: AccessKind,
    /// Reset (default) value.
    pub reset: u64,
    /// Free-text description.
    pub desc: String,
}

/// A register: a named, sized group of fields at an address offset.
#[derive(Debug, Clone, PartialEq)]
pub struct Register {
    pub name: String,
    /// Address offset from the block base.
    pub offset: u64,
    /// Bit width of the register.
    pub size: u64,
    /// Fields ordered by ascending bit offset.
    pub fields: Vec<Field>,
}

/// An address block: a named, based, ranged group of registers.
#[derive(Debug, Clone, PartialEq)]
pub struct Block {
    pub name: String,
    /// Base address.
    pub offset: u64,
    /// Address-space size; register offsets lie in `[0, range)`.
    pub range: u64,
    /// Block size.
    pub size: u64,
    pub regs: Vec<Register>,
}

/// The root of the IR: one instance per successful load, immutable afterward.
#[derive(Debug, Clone, PartialEq)]
pub struct Component {
    pub vendor: String,
    pub library: String,
    pub name: String,
    pub version: String,
    pub blks: Vec<Block>,
}

/// The mathematical value of a `Field`.
#[verifier::ext_equal]
pub ghost struct FieldView {
    pub name: Seq<char>,
    pub offset: u64,
    pub width: u64,
    pub attr: AccessKind,
    pub reset: u64,
    pub desc: Seq<char>,
}

/// The mathematical value of a `Register`.
#[verifier::ext_equal]
pub ghost struct RegisterView {
    pub name: Seq<char>,
    pub offset: u64,
    pub size: u64,
    pub fields: Seq<FieldView>,
}

/// The mathematical value of a `Block`.
#[verifier::ext_equal]
pub ghost struct BlockView {
    pub name: Seq<char>,
    pub offset: u64,
    pub range: u64,
    pub size: u64,
    pub regs: Seq<RegisterView>,
}

/// The mathematical value of a `Component`.
#[verifier::ext_equal]
pub ghost struct ComponentView {
    pub vendor: Seq<char>,
    pub library: Seq<char>,
    pub name: Seq<char>,
    pub version: Seq<char>,
    pub blks: Seq<BlockView>,
}

impl View for Field {
    type V = FieldView;

    open spec fn view(&self) -> FieldView {
        FieldView {
            name: self.name@,
            offset: self.offset,
            width: self.width,
            attr: self.attr,
            reset: self.reset,
            desc: self.desc@,
        }
    }
}

impl View for Register {
    type V = RegisterView;

    open spec fn view(&self) -> RegisterView {
        RegisterView {
            name: self.name@,
            offset: self.offset,
            size: self.size,
            fields: self.fields@.map_values(|f: Field| f@),
        }
    }
}

impl View for Block {
    type V = BlockView;

    open spec fn view(&self) -> BlockView {
        BlockView {
            name: self.name@,
            offset: self.offset,
            range: self.range,
            size: self.size,
            regs: self.regs@.map_values(|r: Register| r@),
        }
    }
}

impl View for Component {
    type V = ComponentView;

    open spec fn view(&self) -> ComponentView {
        ComponentView {
            vendor: self.vendor@,
            library: self.library@,
            name: self.name@,
            version: self.version@,
            blks: self.blks@.map_values(|b: Block| b@),
        }
    }
}

/// Two fields occupy disjoint bit ranges.
pub open spec fn spec_fields_disjoint(a: Field, b: Field) -> bool {
    a.offset + a.width <= b.offset || b.offset + b.width <= a.offset
}

/// A field is well-formed for a register of `reg_size` bits: its name is an
/// identifier, it is at least one bit wide, and `offset + width <= reg_size`.
pub open spec fn spec_field_wf(f: Field, reg_size: nat) -> bool {
    &&& spec_is_ident(f.name@)
    &&& f.width >= 1
    &&& f.offset + f.width <= reg_size
}

/// A register is well-formed: its name is an identifier, every field is
/// well-formed for its size, no two fields overlap, field names are unique,
/// and fields are ordered by ascending bit offset.
pub open spec fn spec_register_wf(r: Register) -> bool {
    &&& spec_is_ident(r.name@)
    &&& r.size >= 1
    &&& forall|i: int| 0 <= i < r.fields@.len() ==> spec_field_wf(#[trigger] r.fields@[i], r.size as nat)
    &&& forall|i: int, j: int|
        0 <= i < j < r.fields@.len() ==> spec_fields_disjoint(r.fields@[i], r.fields@[j])
    &&& forall|i: int, j: int|
        0 <= i < j < r.fields@.len() ==> r.fields@[i].name@ != r.fields@[j].name@
    &&& forall|i: int, j: int|
        0 <= i < j < r.fields@.len() ==> r.fields@[i].offset <= r.fields@[j].offset
}

/// A block is well-formed: its name is an identifier, every register is
/// well-formed, register offsets are unique and lie within `[0, range)`, and
/// register names are unique.
pub open spec fn spec_block_wf(b: Block) -> bool {
    &&& spec_is_ident(b.name@)
    &&& forall|i: int| 0 <= i < b.regs@.len() ==> spec_register_wf(#[trigger] b.regs@[i])
    &&& forall|i: int| 0 <= i < b.regs@.len() ==> (#[trigger] b.regs@[i]).offset < b.range
    &&& forall|i: int, j: int|
        0 <= i < j < b.regs@.len() ==> b.regs@[i].offset != b.regs@[j].offset
    &&& forall|i: int, j: int|
        0 <= i < j < b.regs@.len() ==> b.regs@[i].name@ != b.regs@[j].name@
}

/// A component is well-formed: its name is an identifier, every block is
/// well-formed, and block names are unique.
pub open spec fn spec_component_wf(c: Component) -> bool {
    &&& spec_is_ident(c.name@)
    &&& forall|i: int| 0 <= i < c.blks@.len() ==> spec_block_wf(#[trigger] c.blks@[i])
    &&& forall|i: int, j: int|
        0 <= i < j < c.blks@.len() ==> c.blks@[i].name@ != c.blks@[j].name@
}

/// For any successfully built (well-formed) component, every field lies
/// inside its register's bit width — `offset + width <= register.size` — and
/// no two fields of the same register overlap.
pub proof fn lemma_component_fields_fit(c: Component, b: int, r: int)
    requires
        spec_component_wf(c),
        0 <= b < c.blks@.len(),
        0 <= r < c.blks@[b].regs@.len(),
    ensures
        forall|i: int|
            0 <= i < c.blks@[b].regs@[r].fields@.len()
                ==> (#[trigger] c.blks@[b].regs@[r].fields@[i]).offset
                + c.blks@[b].regs@[r].fields@[i].width <= c.blks@[b].regs@[r].size,
        forall|i: int, j: int|
            0 <= i < j < c.blks@[b].regs@[r].fields@.len() ==> spec_fields_disjoint(
                c.blks@[b].regs@[r].fields@[i],
                c.blks@[b].regs@[r].fields@[j],
            ),
{
    assert(spec_block_wf(c.blks@[b]));
    assert(spec_register_wf(c.blks@[b].regs@[r]));
    assert forall|i: int|
        0 <= i < c.blks@[b].regs@[r].fields@.len()
        implies (#[trigger] c.blks@[b].regs@[r].fields@[i]).offset
        + c.blks@[b].regs@[r].fields@[i].width <= c.blks@[b].regs@[r].size by {
        assert(spec_field_wf(c.blks@[b].regs@[r].fields@[i], c.blks@[b].regs@[r].size as nat));
    }
}

/// For any successfully built (well-formed) component, every register's
/// offset lies within its block's declared `[0, range)`, and no two
/// registers of one block share an offset.
pub proof fn lemma_component_register_offsets(c: Component, b: int)
    requires
        spec_component_wf(c),
        0 <= b < c.blks@.len(),
    ensures
        forall|r: int|
            0 <= r < c.blks@[b].regs@.len()
                ==> (#[trigger] c.blks@[b].regs@[r]).offset < c.blks@[b].range,
        forall|r: int, s: int|
            0 <= r < s < c.blks@[b].regs@.len()
                ==> c.blks@[b].regs@[r].offset != c.blks@[b].regs@[s].offset,
{
    assert(spec_block_wf(c.blks@[b]));
}

impl Component {
    pub fn vendor(&self) -> (r: &String)
        ensures
            r == &self.vendor,
    {
        &self.vendor
    }

    pub fn library(&self) -> (r: &String)
        ensures
            r == &self.library,
    {
        &self.library
    }

    pub fn name(&self) -> (r: &String)
        ensures
            r == &self.name,
    {
        &self.name
    }

    pub fn version(&self) -> (r: &String)
        ensures
            r == &self.version,
    {
        &self.version
    }

    pub fn blks(&self) -> (r: &Vec<Block>)
        ensures
            r == &self.blks,
    {
        &self.blks
    }
}

impl Block {
    pub fn name(&self) -> (r: &String)
        ensures
            r == &self.name,
    {
        &self.name
    }

    pub fn offset(&self) -> (r: u64)
        ensures
            r == self.offset,
    {
        self.offset
    }

    pub fn range(&self) -> (r: u64)
        ensures
            r == self.range,
    {
        self.range
    }

    pub fn size(&self) -> (r: u64)
        ensures
            r == self.size,
    {
        self.size
    }

    pub fn regs(&self) -> (r: &Vec<Register>)
        ensures
            r == &self.regs,
    {
        &self.regs
    }
}

impl Register {
    pub fn name(&self) -> (r: &String)
        ensures
            r == &self.name,
    {
        &self.name
    }

    pub fn offset(&self) -> (r: u64)
        ensures
            r == self.offset,
    {
        self.offset
    }

    pub fn size(&self) -> (r: u64)
        ensures
            r == self.size,
    {
        self.size
    }

    pub fn fields(&self) -> (r: &Vec<Field>)
        ensures
            r == &self.fields,
    {
        &self.fields
    }
}

impl Field {
    pub fn name(&self) -> (r: &String)
        ensures
            r == &self.name,
    {
        &self.name
    }

    pub fn offset(&self) -> (r: u64)
        ensures
            r == self.offset,
    {
        self.offset
    }

    pub fn width(&self) -> (r: u64)
        ensures
            r == self.width,
    {
        self.width
    }

    pub fn attr(&self) -> (r: AccessKind)
        ensures
            r == self.attr,
    {
        self.attr
    }

    pub fn reset(&self) -> (r: u64)
        ensures
            r == self.reset,
    {
        self.reset
    }

    pub fn desc(&self) -> (r: &String)
        ensures
            r == &self.desc,
    {
        &self.desc
    }
}

} // verus!
