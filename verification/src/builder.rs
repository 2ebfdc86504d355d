//! The schema builder: an explicit three-phase pipeline over a consumable
//! sheet pool. Phase one takes the `version` sheet and builds the component's
//! scalar fields; phase two takes the `address_map` sheet; phase three takes
//! one sheet per block named there and runs the register parser over it.
//! A required sheet absent from the pool fails with a missing-sheet error
//! carrying the missing key, distinguishable from a sheet that is present
//! but malformed.

use vstd::prelude::*;
use crate::error::Error;
use crate::ident::{is_valid_ident, spec_is_ident};
use crate::ir::{Block, Component, spec_block_wf, spec_component_wf, spec_register_wf};
use crate::numlit::{spec_to_dec, to_dec_string};
use crate::parser::{cell_num, find_col, parse_register, spec_cell_num, spec_col, validate_register};
use crate::strutil::string_eq;
use crate::table::{CellValue, Frame, SheetPool, lemma_first_frame_at, lemma_remove_other_name};

verus! {

/// The text a cell denotes: a text cell its contents, a number cell its
/// decimal rendering, a blank cell the empty string.
pub open spec fn spec_cell_string(c: CellValue) -> Seq<char> {
    match c {
        CellValue::Text(s) => s@,
        CellValue::Number(n) => spec_to_dec(n as nat),
        CellValue::Empty => Seq::empty(),
    }
}

/// Reads a cell as text; a blank cell reads as nothing.
fn cell_string(c: &CellValue) -> (r: Option<String>)
    ensures
        r is Some <==> !(c is Empty),
        r matches Some(s) ==> s@ == spec_cell_string(*c),
{
    match c {
        CellValue::Text(s) => Some(s.clone()),
        CellValue::Number(n) => Some(to_dec_string(*n)),
        CellValue::Empty => None,
    }
}

/// The text in row `i`, column `c` of a frame (empty where not a text cell).
pub open spec fn spec_row_text(f: Frame, i: int, c: int) -> Seq<char> {
    match f.rows@[i]@[c] {
        CellValue::Text(s) => s@,
        _ => Seq::empty(),
    }
}

/// The `version` sheet is well-formed: it has the four required columns,
/// exactly one data row, text or numeric vendor/library/version cells, and a
/// text `name` cell holding a valid identifier.
pub open spec fn spec_version_ok(f: Frame) -> bool {
    let cv = spec_col(f.columns@, "vendor"@);
    let cl = spec_col(f.columns@, "library"@);
    let cn = spec_col(f.columns@, "name"@);
    let cr = spec_col(f.columns@, "version"@);
    &&& cv >= 0
    &&& cl >= 0
    &&& cn >= 0
    &&& cr >= 0
    &&& f.rows@.len() == 1
    &&& !(f.rows@[0]@[cv] is Empty)
    &&& !(f.rows@[0]@[cl] is Empty)
    &&& !(f.rows@[0]@[cr] is Empty)
    &&& f.rows@[0]@[cn] is Text
    &&& spec_is_ident(spec_row_text(f, 0, cn))
}

/// Builds the component's scalar fields from the `version` sheet; succeeds
/// exactly on a well-formed sheet, and then returns the sheet's values with
/// no blocks yet.
pub fn parse_version(frame: &Frame) -> (r: Result<Component, Error>)
    requires
        frame.wf(),
    ensures
        r is Ok <==> spec_version_ok(*frame),
        r matches Ok(c) ==> {
            let cv = spec_col(frame.columns@, "vendor"@);
            let cl = spec_col(frame.columns@, "library"@);
            let cn = spec_col(frame.columns@, "name"@);
            let cr = spec_col(frame.columns@, "version"@);
            &&& c.vendor@ == spec_cell_string(frame.rows@[0]@[cv])
            &&& c.library@ == spec_cell_string(frame.rows@[0]@[cl])
            &&& c.name@ == spec_cell_string(frame.rows@[0]@[cn])
            &&& c.version@ == spec_cell_string(frame.rows@[0]@[cr])
            &&& c.blks@.len() == 0
        },
        r matches Err(e) ==> e is Validation || e is ValueParse,
{
    let cv = find_col(frame, "vendor")?;
    let cl = find_col(frame, "library")?;
    let cn = find_col(frame, "name")?;
    let cr = find_col(frame, "version")?;
    if frame.n_rows() != 1 {
        return Err(Error::Validation {
            message: String::from_str("version sheet must have exactly one data row"),
        });
    }
    let vendor = match cell_string(frame.cell_at(0, cv)) {
        Some(s) => s,
        None => {
            return Err(Error::ValueParse {
                message: String::from_str("version sheet has a blank vendor cell"),
            });
        },
    };
    let library = match cell_string(frame.cell_at(0, cl)) {
        Some(s) => s,
        None => {
            return Err(Error::ValueParse {
                message: String::from_str("version sheet has a blank library cell"),
            });
        },
    };
    let version = match cell_string(frame.cell_at(0, cr)) {
        Some(s) => s,
        None => {
            return Err(Error::ValueParse {
                message: String::from_str("version sheet has a blank version cell"),
            });
        },
    };
    let name = match frame.cell_at(0, cn) {
        CellValue::Text(s) => s.clone(),
        _ => {
            return Err(Error::ValueParse {
                message: String::from_str("version sheet lacks a text name cell"),
            });
        },
    };
    if !is_valid_ident(name.as_str()) {
        let mut m = String::from_str("component name is not a valid identifier: ");
        m.append(name.as_str());
        return Err(Error::Validation { message: m });
    }
    Ok(Component { vendor, library, name, version, blks: Vec::new() })
}

/// Row `i` of the `address_map` sheet is well-formed: a text name holding a
/// valid identifier and numeric offset, range and size cells.
pub open spec fn spec_blockrow_ok(f: Frame, i: int) -> bool {
    let cn = spec_col(f.columns@, "name"@);
    let co = spec_col(f.columns@, "offset"@);
    let cr = spec_col(f.columns@, "range"@);
    let cs = spec_col(f.columns@, "size"@);
    &&& cn >= 0
    &&& co >= 0
    &&& cr >= 0
    &&& cs >= 0
    &&& 0 <= i < f.rows@.len()
    &&& f.rows@[i]@[cn] is Text
    &&& spec_is_ident(spec_row_text(f, i, cn))
    &&& spec_cell_num(f.rows@[i]@[co], false) is Some
    &&& spec_cell_num(f.rows@[i]@[cr], false) is Some
    &&& spec_cell_num(f.rows@[i]@[cs], false) is Some
}

/// The block name on row `i` of the `address_map` sheet.
pub open spec fn spec_block_name(f: Frame, i: int) -> Seq<char> {
    spec_row_text(f, i, spec_col(f.columns@, "name"@))
}

/// Checks a block against every structural rule; accepts exactly the
/// well-formed blocks.
pub fn validate_block(b: &Block) -> (res: Result<(), Error>)
    ensures
        res is Ok <==> spec_block_wf(*b),
        res matches Err(e) ==> e is Validation,
{
    if !is_valid_ident(b.name.as_str()) {
        let mut m = String::from_str("block name is not a valid identifier: ");
        m.append(b.name.as_str());
        return Err(Error::Validation { message: m });
    }
    let n = b.regs.len();
    let mut i: usize = 0;
    while i < n
        invariant
            0 <= i <= n,
            n == b.regs@.len(),
            forall|k: int| 0 <= k < i ==> spec_register_wf(#[trigger] b.regs@[k]),
            forall|k: int| 0 <= k < i ==> (#[trigger] b.regs@[k]).offset < b.range,
        decreases n - i,
    {
        if let Err(e) = validate_register(&b.regs[i]) {
            return Err(e);
        }
        if b.regs[i].offset >= b.range {
            let mut m = String::from_str("register offset outside block range in ");
            m.append(b.name.as_str());
            m.append(": ");
            m.append(b.regs[i].name.as_str());
            return Err(Error::Validation { message: m });
        }
        i += 1;
    }
    let mut a: usize = 0;
    while a < n
        invariant
            0 <= a <= n,
            n == b.regs@.len(),
            forall|p: int, q: int|
                0 <= p < q < n && p < a ==> b.regs@[p].offset != b.regs@[q].offset,
            forall|p: int, q: int|
                0 <= p < q < n && p < a ==> b.regs@[p].name@ != b.regs@[q].name@,
        decreases n - a,
    {
        let mut c: usize = a + 1;
        while c < n
            invariant
                0 <= a < c <= n,
                n == b.regs@.len(),
                forall|q: int| a < q < c ==> b.regs@[a as int].offset != (#[trigger] b.regs@[q]).offset,
                forall|q: int| a < q < c ==> b.regs@[a as int].name@ != (#[trigger] b.regs@[q]).name@,
            decreases n - c,
        {
            if b.regs[a].offset == b.regs[c].offset {
                let mut m = String::from_str("duplicate register offset in ");
                m.append(b.name.as_str());
                m.append(": ");
                m.append(b.regs[a].name.as_str());
                return Err(Error::Validation { message: m });
            }
            if string_eq(&b.regs[a].name, b.regs[c].name.as_str()) {
                let mut m = String::from_str("duplicate register name in ");
                m.append(b.name.as_str());
                m.append(": ");
                m.append(b.regs[a].name.as_str());
                return Err(Error::Validation { message: m });
            }
            c += 1;
        }
        a += 1;
    }
    Ok(())
}

/// Builds every block named in the `address_map` frame, taking each block's
/// sheet from the pool and parsing it. A row whose sheet is not in the pool
/// fails with a missing-sheet error keyed by that block's name.
fn build_blocks(pool: &mut SheetPool, am: &Frame) -> (r: Result<Vec<Block>, Error>)
    requires
        old(pool).wf(),
        am.wf(),
    ensures
        r matches Ok(blks) ==> {
            &&& forall|i: int| 0 <= i < blks@.len() ==> spec_block_wf(#[trigger] blks@[i])
            &&& blks@.len() == am.rows@.len()
            &&& forall|i: int|
                0 <= i < blks@.len() ==> (#[trigger] blks@[i]).name@ == spec_block_name(*am, i)
            &&& forall|i: int|
                0 <= i < blks@.len() ==> spec_cell_num(
                    am.rows@[i]@[spec_col(am.columns@, "offset"@)],
                    false,
                ) == Some((#[trigger] blks@[i]).offset)
            &&& forall|i: int|
                0 <= i < blks@.len() ==> spec_cell_num(
                    am.rows@[i]@[spec_col(am.columns@, "range"@)],
                    false,
                ) == Some((#[trigger] blks@[i]).range)
            &&& forall|i: int|
                0 <= i < blks@.len() ==> spec_cell_num(
                    am.rows@[i]@[spec_col(am.columns@, "size"@)],
                    false,
                ) == Some((#[trigger] blks@[i]).size)
        },
        r matches Err(e) ==> (e matches Error::KeyNotFound { key } ==> exists|i: int|
            0 <= i < am.rows@.len() && spec_block_name(*am, i) == key@),
        r matches Err(e) ==> e is KeyNotFound || e is ValueParse || e is Validation,
        (am.rows@.len() > 0 && spec_blockrow_ok(*am, 0) && !old(pool).spec_has(
            spec_block_name(*am, 0),
        )) ==> (r matches Err(e) && e matches Error::KeyNotFound { key } && key@
            == spec_block_name(*am, 0)),
{
    let cn = find_col(am, "name")?;
    let co = find_col(am, "offset")?;
    let cr = find_col(am, "range")?;
    let cs = find_col(am, "size")?;
    proof {
        if am.rows@.len() > 0 && spec_blockrow_ok(*am, 0) && !old(pool).spec_has(
            spec_block_name(*am, 0),
        ) {
            assert(spec_col(am.columns@, "name"@) == cn as int);
        }
    }
    let n = am.n_rows();
    let mut blks: Vec<Block> = Vec::new();
    let mut i: usize = 0;
    while i < n
        invariant
            0 <= i <= n,
            n == am.rows@.len(),
            am.wf(),
            pool.wf(),
            cn < am.columns@.len() && cn == spec_col(am.columns@, "name"@),
            co < am.columns@.len() && co == spec_col(am.columns@, "offset"@),
            cr < am.columns@.len() && cr == spec_col(am.columns@, "range"@),
            cs < am.columns@.len() && cs == spec_col(am.columns@, "size"@),
            blks@.len() == i,
            forall|k: int| 0 <= k < blks@.len() ==> spec_block_wf(#[trigger] blks@[k]),
            forall|k: int|
                0 <= k < blks@.len() ==> (#[trigger] blks@[k]).name@ == spec_block_name(*am, k),
            forall|k: int|
                0 <= k < blks@.len() ==> spec_cell_num(
                    am.rows@[k]@[spec_col(am.columns@, "offset"@)],
                    false,
                ) == Some((#[trigger] blks@[k]).offset),
            forall|k: int|
                0 <= k < blks@.len() ==> spec_cell_num(
                    am.rows@[k]@[spec_col(am.columns@, "range"@)],
                    false,
                ) == Some((#[trigger] blks@[k]).range),
            forall|k: int|
                0 <= k < blks@.len() ==> spec_cell_num(
                    am.rows@[k]@[spec_col(am.columns@, "size"@)],
                    false,
                ) == Some((#[trigger] blks@[k]).size),
            i == 0 ==> *pool == *old(pool),
            i > 0 && n > 0 && spec_blockrow_ok(*am, 0) ==> old(pool).spec_has(
                spec_block_name(*am, 0),
            ),
        decreases n - i,
    {
        let name = match am.cell_at(i, cn) {
            CellValue::Text(s) => s.clone(),
            _ => {
                return Err(Error::ValueParse {
                    message: String::from_str("address_map row lacks a text name cell"),
                });
            },
        };
        if !is_valid_ident(name.as_str()) {
            let mut m = String::from_str("block name is not a valid identifier: ");
            m.append(name.as_str());
            return Err(Error::Validation { message: m });
        }
        let offset = match cell_num(am.cell_at(i, co), false) {
            Some(v) => v,
            None => {
                let mut m = String::from_str("bad block offset for ");
                m.append(name.as_str());
                return Err(Error::ValueParse { message: m });
            },
        };
        let range = match cell_num(am.cell_at(i, cr), false) {
            Some(v) => v,
            None => {
                let mut m = String::from_str("bad block range for ");
                m.append(name.as_str());
                return Err(Error::ValueParse { message: m });
            },
        };
        let size = match cell_num(am.cell_at(i, cs), false) {
            Some(v) => v,
            None => {
                let mut m = String::from_str("bad block size for ");
                m.append(name.as_str());
                return Err(Error::ValueParse { message: m });
            },
        };
        let sheet = match pool.take(name.as_str()) {
            Some(f) => f,
            None => {
                proof {
                    assert(spec_block_name(*am, i as int) == name@);
                }
                return Err(Error::KeyNotFound { key: name });
            },
        };
        let regs = parse_register(&sheet)?;
        let blk = Block { name, offset, range, size, regs };
        match validate_block(&blk) {
            Ok(()) => {},
            Err(e) => {
                return Err(e);
            },
        }
        proof {
            assert(spec_block_name(*am, i as int) == blk.name@);
        }
        blks.push(blk);
        i += 1;
    }
    Ok(blks)
}

/// What one successful ingestion yields: the component and the metadata of
/// the workbook it came from.
#[derive(Debug, Clone, PartialEq)]
pub struct LoadResult {
    pub compo: Component,
    pub directory: String,
    pub file: String,
    pub file_size: Option<u64>,
    pub sheet_count: Option<usize>,
}

/// `r` failed with a missing-sheet error carrying exactly the key `k`.
pub open spec fn spec_missing(r: Result<Component, Error>, k: Seq<char>) -> bool {
    r matches Err(e) && e matches Error::KeyNotFound { key } && key@ == k
}

/// Assembles the IR from a pool of sheets. On success the component is
/// well-formed: every field fits its register and overlaps no other, every
/// register offset is unique and lies within its block's range, and names
/// are unique identifiers at every level. A pool without a `version` sheet
/// fails with a missing-sheet error keyed `version`; one with a well-formed
/// `version` sheet but no `address_map` fails keyed `address_map`; a block
/// row whose named sheet is absent fails keyed with that block's name.
pub fn build_component(pool: SheetPool) -> (r: Result<Component, Error>)
    requires
        pool.wf(),
    ensures
        r matches Ok(c) ==> spec_component_wf(c),
        r matches Ok(c) ==> {
            let vf = pool.spec_named("version"@);
            let am = pool.spec_named("address_map"@);
            &&& pool.spec_has("version"@)
            &&& pool.spec_has("address_map"@)
            &&& spec_version_ok(vf)
            &&& c.vendor@ == spec_cell_string(vf.rows@[0]@[spec_col(vf.columns@, "vendor"@)])
            &&& c.library@ == spec_cell_string(vf.rows@[0]@[spec_col(vf.columns@, "library"@)])
            &&& c.name@ == spec_cell_string(vf.rows@[0]@[spec_col(vf.columns@, "name"@)])
            &&& c.version@ == spec_cell_string(vf.rows@[0]@[spec_col(vf.columns@, "version"@)])
            &&& c.blks@.len() == am.rows@.len()
            &&& forall|i: int|
                0 <= i < c.blks@.len() ==> (#[trigger] c.blks@[i]).name@ == spec_block_name(am, i)
            &&& forall|i: int|
                0 <= i < c.blks@.len() ==> spec_cell_num(
                    am.rows@[i]@[spec_col(am.columns@, "offset"@)],
                    false,
                ) == Some((#[trigger] c.blks@[i]).offset)
            &&& forall|i: int|
                0 <= i < c.blks@.len() ==> spec_cell_num(
                    am.rows@[i]@[spec_col(am.columns@, "range"@)],
                    false,
                ) == Some((#[trigger] c.blks@[i]).range)
            &&& forall|i: int|
                0 <= i < c.blks@.len() ==> spec_cell_num(
                    am.rows@[i]@[spec_col(am.columns@, "size"@)],
                    false,
                ) == Some((#[trigger] c.blks@[i]).size)
        },
        !pool.spec_has("version"@) ==> spec_missing(r, "version"@),
        (pool.spec_has("version"@) && spec_version_ok(pool.spec_named("version"@))
            && !pool.spec_has("address_map"@)) ==> spec_missing(r, "address_map"@),
        r matches Err(e) ==> (e matches Error::KeyNotFound { key } ==> ((pool.spec_has(
            "version"@,
        ) && pool.spec_has("address_map"@)) ==> exists|i: int|
            0 <= i < pool.spec_named("address_map"@).rows@.len() && spec_block_name(
                pool.spec_named("address_map"@),
                i,
            ) == key@)),
{
    let mut sheets = pool;
    
    let version_frame = match sheets.take("version") {
        Some(f) => f,
        None => {
            return Err(Error::KeyNotFound { key: String::from_str("version") });
        },
    };
    proof {
        let entries0 = pool.entries@;
        let i = choose|i: int|
            {
                &&& 0 <= i < entries0.len()
                &&& (#[trigger] entries0[i]).0@ == "version"@
                &&& forall|j: int| 0 <= j < i ==> (#[trigger] entries0[j]).0@ != "version"@
                &&& version_frame == entries0[i].1
                &&& sheets.entries@ == entries0.remove(i)
            };
        lemma_first_frame_at(entries0, "version"@, i);
        reveal_strlit("version");
        reveal_strlit("address_map");
        assert("version"@.len() == 7);
        assert("address_map"@.len() == 11);
        assert("version"@ != "address_map"@);
        lemma_remove_other_name(entries0, i, "address_map"@);
    }
    let mut compo = parse_version(&version_frame)?;
    let ghost sheets1 = sheets;
    let am = match sheets.take("address_map") {
        Some(f) => f,
        None => {
            return Err(Error::KeyNotFound { key: String::from_str("address_map") });
        },
    };
    proof {
        let entries1 = sheets1.entries@;
        let j = choose|j: int|
            {
                &&& 0 <= j < entries1.len()
                &&& (#[trigger] entries1[j]).0@ == "address_map"@
                &&& forall|k: int| 0 <= k < j ==> (#[trigger] entries1[k]).0@ != "address_map"@
                &&& am == entries1[j].1
                &&& sheets.entries@ == entries1.remove(j)
            };
        lemma_first_frame_at(entries1, "address_map"@, j);
        assert(am == pool.spec_named("address_map"@));
    }
    let blks = build_blocks(&mut sheets, &am)?;
    if let Err(e) = check_unique_block_names(&blks) {
        return Err(e);
    }
    compo.blks = blks;
    Ok(compo)
}

/// Accepts exactly the block lists whose names are pairwise distinct.
fn check_unique_block_names(blks: &Vec<Block>) -> (res: Result<(), Error>)
    ensures
        res is Ok <==> forall|p: int, q: int|
            0 <= p < q < blks@.len() ==> blks@[p].name@ != blks@[q].name@,
        res matches Err(e) ==> e is Validation,
{
    let n = blks.len();
    let mut a: usize = 0;
    while a < n
        invariant
            0 <= a <= n,
            n == blks@.len(),
            forall|p: int, q: int|
                0 <= p < q < n && p < a ==> blks@[p].name@ != blks@[q].name@,
        decreases n - a,
    {
        let mut c: usize = a + 1;
        while c < n
            invariant
                0 <= a < c <= n,
                n == blks@.len(),
                forall|q: int| a < q < c ==> blks@[a as int].name@
                    != (#[trigger] blks@[q]).name@,
            decreases n - c,
        {
            if string_eq(&blks[a].name, blks[c].name.as_str()) {
                let mut m = String::from_str("duplicate block name: ");
                m.append(blks[a].name.as_str());
                return Err(Error::Validation { message: m });
            }
            c += 1;
        }
        a += 1;
    }
    Ok(())
}


/// Builds the IR from a workbook's sheets together with the metadata of the
/// file they came from. The sheet count reports how many sheets the workbook
/// held; the component is built exactly as `build_component` builds it.
pub fn load_from_sheets(
    pool: SheetPool,
    directory: String,
    file: String,
    file_size: Option<u64>,
) -> (r: Result<LoadResult, Error>)
    requires
        pool.wf(),
    ensures
        r matches Ok(out) ==> spec_component_wf(out.compo) && out.directory@ == directory@
            && out.file@ == file@ && out.file_size == file_size
            && out.sheet_count == Some(pool.entries@.len() as usize),
        r matches Ok(out) ==> {
            let am = pool.spec_named("address_map"@);
            &&& spec_version_ok(pool.spec_named("version"@))
            &&& out.compo.blks@.len() == am.rows@.len()
            &&& forall|i: int|
                0 <= i < out.compo.blks@.len() ==> (#[trigger] out.compo.blks@[i]).name@
                    == spec_block_name(am, i)
        },
        !pool.spec_has("version"@) ==> (r matches Err(e) && e matches Error::KeyNotFound { key }
            && key@ == "version"@),
        (pool.spec_has("version"@) && spec_version_ok(pool.spec_named("version"@))
            && !pool.spec_has("address_map"@)) ==> (r matches Err(e) && e matches
            Error::KeyNotFound { key } && key@ == "address_map"@),
        r matches Err(e) ==> (e matches Error::KeyNotFound { key } ==> ((pool.spec_has(
            "version"@,
        ) && pool.spec_has("address_map"@)) ==> exists|i: int|
            0 <= i < pool.spec_named("address_map"@).rows@.len() && spec_block_name(
                pool.spec_named("address_map"@),
                i,
            ) == key@)),
{
    let sheet_count = Some(pool.len());
    let compo = build_component(pool)?;
    Ok(LoadResult { compo, directory, file, file_size, sheet_count })
}

} // verus!
