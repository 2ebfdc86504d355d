//! The bit-field / register parser: turns one block's raw frame into typed
//! `Register` records. A register-boundary row carries a name and no `width`
//! cell; the rows that follow, until the next boundary, are its fields.
//! Fields are sorted by ascending bit offset, and each register is validated:
//! fields fit the register's bit width, do not overlap, and carry unique
//! identifier names.

use vstd::prelude::*;
use vstd::multiset::Multiset;
use vstd::seq_lib::group_to_multiset_ensures;
use crate::error::Error;
use crate::ident::{is_valid_ident, spec_is_ident};
use crate::ir::{
    AccessKind, Field, FieldView, Register, spec_fields_disjoint, spec_field_wf, spec_register_wf,
};
use crate::numlit::{parse_u64_literal, spec_parse_u64};
use crate::strutil::{spec_lower, string_eq, to_ascii_lower};
use crate::table::{CellValue, Frame};

verus! {

/// The positions of the block-sheet columns, found once per frame.
#[derive(Debug, Clone, Copy)]
pub struct Cols {
    pub name: usize,
    pub offset: usize,
    pub size: usize,
    pub width: usize,
    pub attr: usize,
    pub reset: usize,
    pub desc: usize,
}

/// The first index of a column with the given name, or -1 if there is none.
pub open spec fn spec_col(cols: Seq<String>, name: Seq<char>) -> int
    decreases cols.len(),
{
    if cols.len() == 0 {
        -1
    } else if cols[0]@ == name {
        0
    } else {
        let rest = spec_col(cols.drop_first(), name);
        if rest < 0 {
            -1
        } else {
            rest + 1
        }
    }
}

proof fn lemma_spec_col_first(cols: Seq<String>, name: Seq<char>, i: int)
    requires
        0 <= i < cols.len(),
        cols[i]@ == name,
        forall|j: int| 0 <= j < i ==> cols[j]@ != name,
    ensures
        spec_col(cols, name) == i,
    decreases cols.len(),
{
    if i > 0 {
        lemma_spec_col_first(cols.drop_first(), name, i - 1);
    }
}

proof fn lemma_spec_col_absent(cols: Seq<String>, name: Seq<char>)
    requires
        forall|j: int| 0 <= j < cols.len() ==> (#[trigger] cols[j])@ != name,
    ensures
        spec_col(cols, name) == -1,
    decreases cols.len(),
{
    if cols.len() > 0 {
        lemma_spec_col_absent(cols.drop_first(), name);
    }
}

/// The column layout matches what `spec_col` finds for each required name.
pub open spec fn spec_cols_ok(f: Frame, c: Cols) -> bool {
    &&& c.name == spec_col(f.columns@, "name"@)
    &&& c.offset == spec_col(f.columns@, "offset"@)
    &&& c.size == spec_col(f.columns@, "size"@)
    &&& c.width == spec_col(f.columns@, "width"@)
    &&& c.attr == spec_col(f.columns@, "attr"@)
    &&& c.reset == spec_col(f.columns@, "reset"@)
    &&& c.desc == spec_col(f.columns@, "desc"@)
    &&& c.name < f.columns@.len()
    &&& c.offset < f.columns@.len()
    &&& c.size < f.columns@.len()
    &&& c.width < f.columns@.len()
    &&& c.attr < f.columns@.len()
    &&& c.reset < f.columns@.len()
    &&& c.desc < f.columns@.len()
}

pub fn find_col(f: &Frame, name: &str) -> (r: Result<usize, Error>)
    ensures
        r matches Ok(i) ==> i == spec_col(f.columns@, name@) && i < f.columns@.len(),
        r is Err ==> spec_col(f.columns@, name@) == -1,
        r matches Err(e) ==> e is Validation,
{
    match f.col_index(name) {
        Some(i) => {
            proof {
                lemma_spec_col_first(f.columns@, name@, i as int);
            }
            Ok(i)
        },
        None => {
            proof {
                lemma_spec_col_absent(f.columns@, name@);
            }
            let mut m = String::from_str("sheet lacks required column: ");
            m.append(name);
            Err(Error::Validation { message: m })
        },
    }
}

/// Every required column of a block sheet exists.
pub open spec fn spec_cols_exist(f: Frame) -> bool {
    &&& spec_col(f.columns@, "name"@) >= 0
    &&& spec_col(f.columns@, "offset"@) >= 0
    &&& spec_col(f.columns@, "size"@) >= 0
    &&& spec_col(f.columns@, "width"@) >= 0
    &&& spec_col(f.columns@, "attr"@) >= 0
    &&& spec_col(f.columns@, "reset"@) >= 0
    &&& spec_col(f.columns@, "desc"@) >= 0
}

proof fn lemma_spec_col_range(cols: Seq<String>, name: Seq<char>)
    ensures
        spec_col(cols, name) >= 0 ==> spec_col(cols, name) < cols.len(),
    decreases cols.len(),
{
    if cols.len() > 0 && cols[0]@ != name {
        lemma_spec_col_range(cols.drop_first(), name);
    }
}

/// The column layout of a block sheet whose required columns all exist.
pub open spec fn spec_cols_of(f: Frame) -> Cols {
    Cols {
        name: spec_col(f.columns@, "name"@) as usize,
        offset: spec_col(f.columns@, "offset"@) as usize,
        size: spec_col(f.columns@, "size"@) as usize,
        width: spec_col(f.columns@, "width"@) as usize,
        attr: spec_col(f.columns@, "attr"@) as usize,
        reset: spec_col(f.columns@, "reset"@) as usize,
        desc: spec_col(f.columns@, "desc"@) as usize,
    }
}

/// Finds every required column of a block sheet; succeeds exactly when all
/// are present.
pub fn find_cols(f: &Frame) -> (r: Result<Cols, Error>)
    ensures
        r is Ok <==> spec_cols_exist(*f),
        r matches Ok(c) ==> spec_cols_ok(*f, c),
        r matches Err(e) ==> e is Validation,
{
    let name = find_col(f, "name")?;
    let offset = find_col(f, "offset")?;
    let size = find_col(f, "size")?;
    let width = find_col(f, "width")?;
    let attr = find_col(f, "attr")?;
    let reset = find_col(f, "reset")?;
    let desc = find_col(f, "desc")?;
    Ok(Cols { name, offset, size, width, attr, reset, desc })
}

/// The numeric value a cell denotes: a number cell denotes itself, a text
/// cell denotes its literal's value, a blank cell none.
pub open spec fn spec_cell_num(c: CellValue, allow_binary: bool) -> Option<u64> {
    match c {
        CellValue::Number(n) => Some(n),
        CellValue::Text(s) => spec_parse_u64(s@, allow_binary),
        CellValue::Empty => None,
    }
}

/// Reads a cell as a numeric value.
pub fn cell_num(c: &CellValue, allow_binary: bool) -> (r: Option<u64>)
    ensures
        r == spec_cell_num(*c, allow_binary),
{
    match c {
        CellValue::Number(n) => Some(*n),
        CellValue::Text(s) => parse_u64_literal(s.as_str(), allow_binary),
        CellValue::Empty => None,
    }
}

/// The canonical access kind of an attribute token, compared after ASCII
/// lowercasing; `None` for an unknown token.
pub open spec fn spec_attr_of(s: Seq<char>) -> Option<AccessKind> {
    let t = spec_lower(s);
    if t == "rw"@ || t == "read-write"@ || t == "readwrite"@ {
        Some(AccessKind::ReadWrite)
    } else if t == "ro"@ || t == "read-only"@ || t == "readonly"@ {
        Some(AccessKind::ReadOnly)
    } else if t == "wo"@ || t == "write-only"@ || t == "writeonly"@ {
        Some(AccessKind::WriteOnly)
    } else if t == "rc"@ || t == "clear-on-read"@ || t == "clearonread"@ {
        Some(AccessKind::ClearOnRead)
    } else {
        None
    }
}

/// Parses an attribute token into its canonical access kind.
pub fn parse_attr(s: &str) -> (r: Option<AccessKind>)
    ensures
        r == spec_attr_of(s@),
{
    let t = to_ascii_lower(s);
    if string_eq(&t, "rw") || string_eq(&t, "read-write") || string_eq(&t, "readwrite") {
        Some(AccessKind::ReadWrite)
    } else if string_eq(&t, "ro") || string_eq(&t, "read-only") || string_eq(&t, "readonly") {
        Some(AccessKind::ReadOnly)
    } else if string_eq(&t, "wo") || string_eq(&t, "write-only") || string_eq(&t, "writeonly") {
        Some(AccessKind::WriteOnly)
    } else if string_eq(&t, "rc") || string_eq(&t, "clear-on-read") || string_eq(&t, "clearonread") {
        Some(AccessKind::ClearOnRead)
    } else {
        None
    }
}

/// A row is a field row when its `width` cell is filled.
pub open spec fn spec_row_is_field(row: Seq<CellValue>, c: Cols) -> bool {
    !(row[c.width as int] is Empty)
}

/// A row is a register boundary when its `width` cell is blank and its `name`
/// cell holds text.
pub open spec fn spec_row_is_reg(row: Seq<CellValue>, c: Cols) -> bool {
    row[c.width as int] is Empty && row[c.name as int] is Text
}

/// The value of an optional number, zero when absent.
pub open spec fn spec_opt_u64(o: Option<u64>) -> u64 {
    match o {
        Some(v) => v,
        None => 0,
    }
}

/// A field row's cells all parse: a text name, numeric offset and width, a
/// known attribute token, and a reset that is blank or a literal (binary
/// admitted).
pub open spec fn spec_field_row_ok(row: Seq<CellValue>, c: Cols) -> bool {
    &&& row[c.name as int] is Text
    &&& spec_cell_num(row[c.offset as int], false) is Some
    &&& spec_cell_num(row[c.width as int], false) is Some
    &&& (row[c.attr as int] matches CellValue::Text(t) && spec_attr_of(t@) is Some)
    &&& (row[c.reset as int] is Empty || spec_cell_num(row[c.reset as int], true) is Some)
}

/// A register-boundary row's cells all parse.
pub open spec fn spec_reg_row_ok(row: Seq<CellValue>, c: Cols) -> bool {
    &&& spec_cell_num(row[c.offset as int], false) is Some
    &&& spec_cell_num(row[c.size as int], false) is Some
}

/// The field value a parsed field row denotes.
pub open spec fn spec_field_of_row(row: Seq<CellValue>, c: Cols) -> FieldView {
    FieldView {
        name: spec_row_name(row, c),
        offset: spec_opt_u64(spec_cell_num(row[c.offset as int], false)),
        width: spec_opt_u64(spec_cell_num(row[c.width as int], false)),
        attr: match row[c.attr as int] {
            CellValue::Text(t) => match spec_attr_of(t@) {
                Some(k) => k,
                None => AccessKind::ReadWrite,
            },
            _ => AccessKind::ReadWrite,
        },
        reset: if row[c.reset as int] is Empty {
            0
        } else {
            spec_opt_u64(spec_cell_num(row[c.reset as int], true))
        },
        desc: match row[c.desc as int] {
            CellValue::Text(t) => t@,
            _ => Seq::empty(),
        },
    }
}

/// The boundary a row belongs to: the last register row strictly before it,
/// or -1 where none has come yet.
pub open spec fn spec_prev_reg(rows: Seq<Vec<CellValue>>, c: Cols, i: int) -> int
    decreases i,
{
    if i <= 0 {
        -1
    } else if spec_row_is_reg(rows[i - 1]@, c) {
        i - 1
    } else {
        spec_prev_reg(rows, c, i - 1)
    }
}

proof fn lemma_prev_reg_lt(rows: Seq<Vec<CellValue>>, c: Cols, i: int)
    requires
        0 <= i,
    ensures
        spec_prev_reg(rows, c, i) < i,
    decreases i,
{
    if i > 0 && !spec_row_is_reg(rows[i - 1]@, c) {
        lemma_prev_reg_lt(rows, c, i - 1);
    }
}

proof fn lemma_prev_reg_at(rows: Seq<Vec<CellValue>>, c: Cols, i: int, b: int)
    requires
        0 <= b < i,
        spec_row_is_reg(rows[b]@, c),
        forall|t: int| b < t < i ==> !spec_row_is_reg((#[trigger] rows[t])@, c),
    ensures
        spec_prev_reg(rows, c, i) == b,
    decreases i,
{
    if i - 1 > b {
        lemma_prev_reg_at(rows, c, i - 1, b);
    }
}

proof fn lemma_prev_reg_none(rows: Seq<Vec<CellValue>>, c: Cols, i: int)
    requires
        forall|t: int| 0 <= t < i ==> !spec_row_is_reg((#[trigger] rows[t])@, c),
    ensures
        spec_prev_reg(rows, c, i) == -1,
    decreases i,
{
    if i > 0 {
        lemma_prev_reg_none(rows, c, i - 1);
    }
}

/// `spec_prev_reg` reads only the rows before `i`, so it agrees on prefixes.
proof fn lemma_prev_reg_prefix(rows: Seq<Vec<CellValue>>, c: Cols, k: int, i: int)
    requires
        0 <= i <= k <= rows.len(),
    ensures
        spec_prev_reg(rows.take(k), c, i) == spec_prev_reg(rows, c, i),
    decreases i,
{
    if i > 0 {
        assert(rows.take(k)[i - 1] == rows[i - 1]);
        if !spec_row_is_reg(rows[i - 1]@, c) {
            lemma_prev_reg_prefix(rows, c, k, i - 1);
        }
    }
}

/// The indices of the register-boundary rows, in sheet order.
pub open spec fn spec_boundaries(rows: Seq<Vec<CellValue>>, c: Cols) -> Seq<int>
    decreases rows.len(),
{
    if rows.len() == 0 {
        Seq::empty()
    } else if spec_row_is_reg(rows.last()@, c) {
        spec_boundaries(rows.drop_last(), c).push(rows.len() - 1)
    } else {
        spec_boundaries(rows.drop_last(), c)
    }
}

/// The parsed fields of the rows that belong to the boundary at row `b`, in
/// sheet order.
pub open spec fn spec_fields_for(rows: Seq<Vec<CellValue>>, c: Cols, b: int) -> Seq<FieldView>
    decreases rows.len(),
{
    if rows.len() == 0 {
        Seq::empty()
    } else if spec_row_is_field(rows.last()@, c) && spec_prev_reg(rows, c, rows.len() - 1) == b {
        spec_fields_for(rows.drop_last(), c, b).push(spec_field_of_row(rows.last()@, c))
    } else {
        spec_fields_for(rows.drop_last(), c, b)
    }
}

/// No row of a prefix can belong to a boundary at or past its end.
proof fn lemma_fields_for_high(rows: Seq<Vec<CellValue>>, c: Cols, b: int)
    requires
        b >= rows.len() - 1,
    ensures
        spec_fields_for(rows, c, b) == Seq::<FieldView>::empty(),
    decreases rows.len(),
{
    if rows.len() > 0 {
        lemma_prev_reg_lt(rows, c, rows.len() - 1);
        lemma_fields_for_high(rows.drop_last(), c, b);
    }
}

/// Extending the sheet only appends to a boundary's fields: the fields a
/// prefix yields are a prefix of the fields the whole sheet yields.
proof fn lemma_fields_for_prefix(rows: Seq<Vec<CellValue>>, c: Cols, b: int, k: int)
    requires
        0 <= k <= rows.len(),
    ensures
        spec_fields_for(rows.take(k), c, b).len() <= spec_fields_for(rows, c, b).len(),
        forall|t: int|
            0 <= t < spec_fields_for(rows.take(k), c, b).len() ==> spec_fields_for(
                rows.take(k),
                c,
                b,
            )[t] == spec_fields_for(rows, c, b)[t],
    decreases rows.len() - k,
{
    if k == rows.len() {
        assert(rows.take(k) =~= rows);
    } else {
        lemma_fields_for_prefix(rows, c, b, k + 1);
        assert(rows.take(k + 1).drop_last() =~= rows.take(k));
        assert(rows.take(k + 1).last() == rows[k]);
        lemma_prev_reg_prefix(rows, c, k + 1, k);
    }
}

/// The per-boundary readings of the sheet line up with the row-order
/// sequences: the k-th register row's name, offset and size cells are the
/// k-th entries of the name/offset/size sequences.
proof fn lemma_reg_seqs_boundaries(rows: Seq<Vec<CellValue>>, c: Cols)
    ensures
        spec_reg_names(rows, c).len() == spec_boundaries(rows, c).len(),
        spec_reg_offsets(rows, c).len() == spec_boundaries(rows, c).len(),
        spec_reg_sizes(rows, c).len() == spec_boundaries(rows, c).len(),
        spec_reg_count(rows, c) == spec_boundaries(rows, c).len(),
        forall|k: int|
            0 <= k < spec_boundaries(rows, c).len() ==> 0 <= #[trigger] spec_boundaries(
                rows,
                c,
            )[k] < rows.len(),
        forall|k: int|
            0 <= k < spec_boundaries(rows, c).len() ==> spec_reg_names(rows, c)[k]
                == spec_row_name(rows[#[trigger] spec_boundaries(rows, c)[k]]@, c),
        forall|k: int|
            0 <= k < spec_boundaries(rows, c).len() ==> spec_reg_offsets(rows, c)[k]
                == spec_cell_num(rows[#[trigger] spec_boundaries(rows, c)[k]]@[c.offset as int], false),
        forall|k: int|
            0 <= k < spec_boundaries(rows, c).len() ==> spec_reg_sizes(rows, c)[k]
                == spec_cell_num(rows[#[trigger] spec_boundaries(rows, c)[k]]@[c.size as int], false),
    decreases rows.len(),
{
    if rows.len() > 0 {
        lemma_reg_seqs_boundaries(rows.drop_last(), c);
        assert(forall|b: int| 0 <= b < rows.len() - 1 ==> rows.drop_last()[b] == rows[b]);
    }
}

/// Registers read off per boundary row line up with the row-order name,
/// offset and size sequences.
proof fn lemma_final_seqs(rows: Seq<Vec<CellValue>>, c: Cols, regs: Seq<Register>, bnds: Seq<int>)
    requires
        bnds == spec_boundaries(rows, c),
        bnds.len() == regs.len(),
        forall|k: int| 0 <= k < bnds.len() ==> 0 <= #[trigger] bnds[k] < rows.len(),
        forall|k: int|
            0 <= k < bnds.len() ==> (#[trigger] regs[k]).name@ == spec_row_name(
                rows[bnds[k]]@,
                c,
            ) && Some(regs[k].offset) == spec_cell_num(rows[bnds[k]]@[c.offset as int], false)
                && Some(regs[k].size) == spec_cell_num(rows[bnds[k]]@[c.size as int], false),
    ensures
        regs.len() == spec_reg_count(rows, c),
        regs.map_values(|reg: Register| reg.name@) == spec_reg_names(rows, c),
        regs.map_values(|reg: Register| Some(reg.offset)) == spec_reg_offsets(rows, c),
        regs.map_values(|reg: Register| Some(reg.size)) == spec_reg_sizes(rows, c),
{
    lemma_reg_seqs_boundaries(rows, c);
    assert(regs.map_values(|reg: Register| reg.name@) =~= spec_reg_names(rows, c));
    assert(regs.map_values(|reg: Register| Some(reg.offset)) =~= spec_reg_offsets(rows, c));
    assert(regs.map_values(|reg: Register| Some(reg.size)) =~= spec_reg_sizes(rows, c));
}

/// The register assembled at boundary row `b` is sound: an identifier name,
/// a positive size, and fields that fit it, do not overlap, and carry
/// distinct identifier names.
pub open spec fn spec_boundary_wf(rows: Seq<Vec<CellValue>>, c: Cols, b: int) -> bool {
    let size = spec_opt_u64(spec_cell_num(rows[b]@[c.size as int], false));
    let fs = spec_fields_for(rows, c, b);
    &&& spec_is_ident(spec_row_name(rows[b]@, c))
    &&& size >= 1
    &&& forall|t: int| 0 <= t < fs.len() ==> spec_fieldview_wf(#[trigger] fs[t], size)
    &&& forall|t1: int, t2: int|
        0 <= t1 < t2 < fs.len() ==> spec_fieldviews_compat(fs[t1], fs[t2])
}

/// The whole frame parses: the required columns exist, no field row comes
/// before the first register row, every row's cells parse, and every
/// register assembles soundly.
#[verifier::opaque]
pub open spec fn spec_frame_parses(f: Frame) -> bool {
    &&& spec_cols_exist(f)
    &&& {
        let c = spec_cols_of(f);
        &&& forall|t: int|
            0 <= t < f.rows@.len() && spec_row_is_field((#[trigger] f.rows@[t])@, c)
                ==> spec_field_row_ok(f.rows@[t]@, c) && spec_prev_reg(f.rows@, c, t) >= 0
        &&& forall|t: int|
            0 <= t < f.rows@.len() && spec_row_is_reg((#[trigger] f.rows@[t])@, c)
                ==> spec_reg_row_ok(f.rows@[t]@, c) && spec_boundary_wf(f.rows@, c, t)
    }
}

proof fn lemma_not_parses_cols(f: Frame)
    requires
        !spec_cols_exist(f),
    ensures
        !spec_frame_parses(f),
{
    reveal(spec_frame_parses);
}

proof fn lemma_not_parses_orphan(f: Frame, i: int)
    requires
        spec_cols_exist(f),
        0 <= i < f.rows@.len(),
        spec_row_is_field(f.rows@[i]@, spec_cols_of(f)),
        spec_prev_reg(f.rows@, spec_cols_of(f), i) < 0,
    ensures
        !spec_frame_parses(f),
{
    reveal(spec_frame_parses);
}

proof fn lemma_not_parses_field_row(f: Frame, i: int)
    requires
        spec_cols_exist(f),
        0 <= i < f.rows@.len(),
        spec_row_is_field(f.rows@[i]@, spec_cols_of(f)),
        !spec_field_row_ok(f.rows@[i]@, spec_cols_of(f)),
    ensures
        !spec_frame_parses(f),
{
    reveal(spec_frame_parses);
}

proof fn lemma_not_parses_reg_row(f: Frame, i: int)
    requires
        spec_cols_exist(f),
        0 <= i < f.rows@.len(),
        spec_row_is_reg(f.rows@[i]@, spec_cols_of(f)),
        !spec_reg_row_ok(f.rows@[i]@, spec_cols_of(f)),
    ensures
        !spec_frame_parses(f),
{
    reveal(spec_frame_parses);
}

proof fn lemma_not_parses_assemble(f: Frame, b: int, reg: Register, pf: Seq<FieldView>, k: int)
    requires
        spec_cols_exist(f),
        0 <= b < f.rows@.len(),
        b < k <= f.rows@.len(),
        spec_row_is_reg(f.rows@[b]@, spec_cols_of(f)),
        reg.name@ == spec_row_name(f.rows@[b]@, spec_cols_of(f)),
        Some(reg.size) == spec_cell_num(f.rows@[b]@[spec_cols_of(f).size as int], false),
        pf == spec_fields_for(f.rows@.take(k), spec_cols_of(f), b),
        !spec_assembles(reg, pf),
    ensures
        !spec_frame_parses(f),
{
    reveal(spec_frame_parses);
    if spec_frame_parses(f) {
        let c = spec_cols_of(f);
        assert(spec_boundary_wf(f.rows@, c, b));
        lemma_fields_for_prefix(f.rows@, c, b, k);
        let full = spec_fields_for(f.rows@, c, b);
        let size = spec_opt_u64(spec_cell_num(f.rows@[b]@[c.size as int], false));
        assert(reg.size == size);
        assert forall|t: int| 0 <= t < pf.len() implies spec_fieldview_wf(
            #[trigger] pf[t],
            reg.size,
        ) by {
            assert(pf[t] == full[t]);
        }
        assert forall|t1: int, t2: int|
            0 <= t1 < t2 < pf.len() implies spec_fieldviews_compat(pf[t1], pf[t2]) by {
            assert(pf[t1] == full[t1] && pf[t2] == full[t2]);
        }
        assert(spec_assembles(reg, pf));
    }
}

/// How many register-boundary rows a sheet has.
pub open spec fn spec_reg_count(rows: Seq<Vec<CellValue>>, c: Cols) -> nat
    decreases rows.len(),
{
    if rows.len() == 0 {
        0
    } else {
        spec_reg_count(rows.drop_last(), c) + if spec_row_is_reg(rows.last()@, c) {
            1nat
        } else {
            0nat
        }
    }
}

/// The names on the register-boundary rows, in sheet order.
pub open spec fn spec_reg_names(rows: Seq<Vec<CellValue>>, c: Cols) -> Seq<Seq<char>>
    decreases rows.len(),
{
    if rows.len() == 0 {
        Seq::empty()
    } else {
        spec_reg_names(rows.drop_last(), c) + if spec_row_is_reg(rows.last()@, c) {
            seq![spec_row_name(rows.last()@, c)]
        } else {
            Seq::empty()
        }
    }
}

/// The parsed `offset` cells of the register-boundary rows, in sheet order.
pub open spec fn spec_reg_offsets(rows: Seq<Vec<CellValue>>, c: Cols) -> Seq<Option<u64>>
    decreases rows.len(),
{
    if rows.len() == 0 {
        Seq::empty()
    } else {
        spec_reg_offsets(rows.drop_last(), c) + if spec_row_is_reg(rows.last()@, c) {
            seq![spec_cell_num(rows.last()@[c.offset as int], false)]
        } else {
            Seq::empty()
        }
    }
}

/// The parsed `size` cells of the register-boundary rows, in sheet order.
pub open spec fn spec_reg_sizes(rows: Seq<Vec<CellValue>>, c: Cols) -> Seq<Option<u64>>
    decreases rows.len(),
{
    if rows.len() == 0 {
        Seq::empty()
    } else {
        spec_reg_sizes(rows.drop_last(), c) + if spec_row_is_reg(rows.last()@, c) {
            seq![spec_cell_num(rows.last()@[c.size as int], false)]
        } else {
            Seq::empty()
        }
    }
}

/// The text in a row's `name` cell (the empty sequence where it is not a
/// text cell).
pub open spec fn spec_row_name(row: Seq<CellValue>, c: Cols) -> Seq<char> {
    match row[c.name as int] {
        CellValue::Text(s) => s@,
        _ => Seq::empty(),
    }
}

/// A field value is well-formed for a register of `size` bits.
pub open spec fn spec_fieldview_wf(v: FieldView, size: u64) -> bool {
    &&& spec_is_ident(v.name)
    &&& v.width >= 1
    &&& v.offset + v.width <= size
}

/// Two field values can share a register: disjoint bit ranges and distinct
/// names.
pub open spec fn spec_fieldviews_compat(a: FieldView, b: FieldView) -> bool {
    &&& (a.offset + a.width <= b.offset || b.offset + b.width <= a.offset)
    &&& a.name != b.name
}

proof fn lemma_two_indices_count(s: Seq<FieldView>, i: int, j: int)
    requires
        0 <= i < j < s.len(),
        s[i] == s[j],
    ensures
        s.to_multiset().count(s[i]) >= 2,
{
    broadcast use group_to_multiset_ensures;
    broadcast use vstd::multiset::group_multiset_axioms;

    let x = s[i];
    assert(s.remove(j).to_multiset() =~= s.to_multiset().remove(x));
    assert(s.remove(j)[i] == x);
    assert(s.remove(j).contains(x));
    assert(s.remove(j).to_multiset().count(x) >= 1);
}

proof fn lemma_count_two_indices(s: Seq<FieldView>, x: FieldView)
    requires
        s.to_multiset().count(x) >= 2,
    ensures
        exists|i: int, j: int| 0 <= i < j < s.len() && s[i] == x && s[j] == x,
    decreases s.len(),
{
    broadcast use group_to_multiset_ensures;
    broadcast use vstd::multiset::group_multiset_axioms;

    assert(s.to_multiset().contains(x));
    assert(s.contains(x));
    assert(s.len() > 0);
    let dm = s.drop_last().to_multiset();
    assert(s.drop_last().push(s.last()) =~= s);
    assert(s.to_multiset() == s.drop_last().push(s.last()).to_multiset());
    assert(s.drop_last().push(s.last()).to_multiset() =~= dm.insert(s.last()));
    if s.last() == x {
        assert(dm.insert(x).count(x) == dm.count(x) + 1);
        assert(dm.count(x) >= 1);
        assert(dm.contains(x));
        assert(s.drop_last().contains(x));
        let i = choose|i: int| 0 <= i < s.len() - 1 && s.drop_last()[i] == x;
        assert(s[i] == x && s[s.len() - 1] == x);
    } else {
        assert(dm.insert(s.last()).count(x) == dm.count(x));
        assert(dm.count(x) >= 2);
        lemma_count_two_indices(s.drop_last(), x);
        let (i, j) = choose|i: int, j: int|
            0 <= i < j < s.len() - 1 && s.drop_last()[i] == x && s.drop_last()[j] == x;
        assert(s[i] == x && s[j] == x);
    }
}

/// Per-field well-formedness and pairwise compatibility carry over between
/// any two sequences with the same fields (in any order).
proof fn lemma_fieldviews_transfer(s1: Seq<FieldView>, s2: Seq<FieldView>, size: u64)
    requires
        s1.to_multiset() == s2.to_multiset(),
        forall|t: int| 0 <= t < s1.len() ==> spec_fieldview_wf(#[trigger] s1[t], size),
        forall|t1: int, t2: int|
            0 <= t1 < t2 < s1.len() ==> spec_fieldviews_compat(s1[t1], s1[t2]),
    ensures
        forall|t: int| 0 <= t < s2.len() ==> spec_fieldview_wf(#[trigger] s2[t], size),
        forall|t1: int, t2: int|
            0 <= t1 < t2 < s2.len() ==> spec_fieldviews_compat(s2[t1], s2[t2]),
{
    broadcast use group_to_multiset_ensures;

    assert forall|t: int| 0 <= t < s2.len() implies spec_fieldview_wf(#[trigger] s2[t], size) by {
        assert(s2.contains(s2[t]));
        assert(s2.to_multiset().contains(s2[t]));
        assert(s1.to_multiset().contains(s2[t]));
        assert(s1.contains(s2[t]));
        let i = choose|i: int| 0 <= i < s1.len() && s1[i] == s2[t];
        assert(spec_fieldview_wf(s1[i], size));
    }
    assert forall|t1: int, t2: int|
        0 <= t1 < t2 < s2.len() implies spec_fieldviews_compat(s2[t1], s2[t2]) by {
        let a = s2[t1];
        let b = s2[t2];
        if a == b {
            lemma_two_indices_count(s2, t1, t2);
            assert(s1.to_multiset().count(a) >= 2);
            lemma_count_two_indices(s1, a);
            let (i, j) = choose|i: int, j: int|
                0 <= i < j < s1.len() && s1[i] == a && s1[j] == a;
            assert(spec_fieldviews_compat(s1[i], s1[j]));
        } else {
            assert(s2.contains(a) && s2.contains(b));
            assert(s1.to_multiset().contains(a) && s1.to_multiset().contains(b));
            assert(s1.contains(a) && s1.contains(b));
            let i = choose|i: int| 0 <= i < s1.len() && s1[i] == a;
            let j = choose|j: int| 0 <= j < s1.len() && s1[j] == b;
            if i < j {
                assert(spec_fieldviews_compat(s1[i], s1[j]));
            } else {
                assert(spec_fieldviews_compat(s1[j], s1[i]));
            }
        }
    }
}

/// Whether two fields' bit ranges are disjoint.
fn fields_disjoint(a: &Field, b: &Field) -> (r: bool)
    ensures
        r == spec_fields_disjoint(*a, *b),
{
    (a.offset as u128 + a.width as u128 <= b.offset as u128) || (b.offset as u128 + b.width
        as u128 <= a.offset as u128)
}

/// Sorts fields by ascending bit offset; the result is a permutation of the
/// input (the first of several minimal offsets is taken first, so the sort is
/// stable and deterministic).
pub fn sort_fields(fields: Vec<Field>) -> (r: Vec<Field>)
    ensures
        r@.to_multiset() == fields@.to_multiset(),
        r@.map_values(|f: Field| f@).to_multiset() == fields@.map_values(
            |f: Field| f@,
        ).to_multiset(),
        r@.len() == fields@.len(),
        forall|i: int, j: int| 0 <= i < j < r@.len() ==> r@[i].offset <= r@[j].offset,
{
    broadcast use group_to_multiset_ensures;

    let ghost orig = fields@;
    let mut rest = fields;
    let mut out: Vec<Field> = Vec::new();
    while rest.len() > 0
        invariant
            out@.to_multiset().add(rest@.to_multiset()) =~= orig.to_multiset(),
            out@.map_values(|f: Field| f@).to_multiset().add(
                rest@.map_values(|f: Field| f@).to_multiset(),
            ) =~= orig.map_values(|f: Field| f@).to_multiset(),
            out@.len() + rest@.len() == orig.len(),
            forall|i: int, j: int| 0 <= i < j < out@.len() ==> out@[i].offset <= out@[j].offset,
            forall|i: int, j: int|
                0 <= i < out@.len() && 0 <= j < rest@.len() ==> out@[i].offset
                    <= rest@[j].offset,
        decreases rest@.len(),
    {
        let mut m: usize = 0;
        let mut k: usize = 1;
        while k < rest.len()
            invariant
                0 <= m < k <= rest@.len(),
                forall|j: int| 0 <= j < k ==> rest@[m as int].offset <= (#[trigger] rest@[j]).offset,
            decreases rest@.len() - k,
        {
            if rest[k].offset < rest[m].offset {
                m = k;
            }
            k += 1;
        }
        let ghost before = rest@;
        let ghost before_out = out@;
        let x = rest.remove(m);
        out.push(x);
        proof {
            broadcast use group_to_multiset_ensures;

            assert(rest@ == before.remove(m as int));
            assert(x == before[m as int]);
            assert(before.remove(m as int).to_multiset() =~= before.to_multiset().remove(
                before[m as int],
            ));
            assert(out@ == before_out.push(x));
            assert(before_out.push(x).to_multiset() =~= before_out.to_multiset().insert(x));
            assert(before.to_multiset().contains(x)) by {
                assert(before.contains(x));
            }
            assert(out@.to_multiset().add(rest@.to_multiset()) =~= orig.to_multiset());
            let mb = before.map_values(|f: Field| f@);
            assert(rest@.map_values(|f: Field| f@) =~= mb.remove(m as int));
            assert(mb.remove(m as int).to_multiset() =~= mb.to_multiset().remove(mb[m as int]));
            assert(mb[m as int] == x@);
            let mo = before_out.map_values(|f: Field| f@);
            assert(out@.map_values(|f: Field| f@) =~= mo.push(x@));
            assert(mo.push(x@).to_multiset() =~= mo.to_multiset().insert(x@));
            assert(mb.to_multiset().contains(x@)) by {
                assert(mb[m as int] == x@);
                assert(mb.contains(x@));
            }
            assert(out@.map_values(|f: Field| f@).to_multiset().add(
                rest@.map_values(|f: Field| f@).to_multiset(),
            ) =~= orig.map_values(|f: Field| f@).to_multiset());
            assert forall|j: int| 0 <= j < rest@.len() implies x.offset
                <= (#[trigger] rest@[j]).offset by {
                if j < m {
                    assert(rest@[j] == before[j]);
                } else {
                    assert(rest@[j] == before[j + 1]);
                }
            }
            assert forall|i: int, j: int|
                0 <= i < out@.len() && 0 <= j < rest@.len() implies out@[i].offset
                <= rest@[j].offset by {
                if i < out@.len() - 1 {
                    assert(out@[i] == out@.drop_last()[i]);
                }
            }
        }
    }
    proof {
        broadcast use group_to_multiset_ensures;

        assert(rest@ =~= Seq::<Field>::empty());
        assert(rest@.to_multiset() =~= Multiset::empty());
        assert(out@.to_multiset() =~= orig.to_multiset());
        assert(rest@.map_values(|f: Field| f@) =~= Seq::<FieldView>::empty());
        assert(rest@.map_values(|f: Field| f@).to_multiset() =~= Multiset::empty());
        assert(out@.map_values(|f: Field| f@).to_multiset() =~= orig.map_values(
            |f: Field| f@,
        ).to_multiset());
    }
    out
}

/// Checks a register against every structural rule; accepts exactly the
/// well-formed registers.
pub fn validate_register(r: &Register) -> (res: Result<(), Error>)
    ensures
        res is Ok <==> spec_register_wf(*r),
        res matches Err(e) ==> e is Validation,
{
    if !is_valid_ident(r.name.as_str()) {
        let mut m = String::from_str("register name is not a valid identifier: ");
        m.append(r.name.as_str());
        return Err(Error::Validation { message: m });
    }
    if r.size < 1 {
        let mut m = String::from_str("register has zero size: ");
        m.append(r.name.as_str());
        return Err(Error::Validation { message: m });
    }
    let n = r.fields.len();
    let mut i: usize = 0;
    while i < n
        invariant
            0 <= i <= n,
            n == r.fields@.len(),
            r.size >= 1,
            forall|k: int| 0 <= k < i ==> spec_field_wf(#[trigger] r.fields@[k], r.size as nat),
        decreases n - i,
    {
        let f = &r.fields[i];
        if !is_valid_ident(f.name.as_str()) {
            let mut m = String::from_str("field name is not a valid identifier: ");
            m.append(f.name.as_str());
            return Err(Error::Validation { message: m });
        }
        if f.width < 1 {
            let mut m = String::from_str("field has zero width: ");
            m.append(f.name.as_str());
            return Err(Error::Validation { message: m });
        }
        if f.offset as u128 + f.width as u128 > r.size as u128 {
            let mut m = String::from_str("field exceeds register size in ");
            m.append(r.name.as_str());
            m.append(": ");
            m.append(f.name.as_str());
            return Err(Error::Validation { message: m });
        }
        i += 1;
    }
    let mut a: usize = 0;
    while a < n
        invariant
            0 <= a <= n,
            n == r.fields@.len(),
            forall|p: int, q: int|
                0 <= p < q < n && p < a ==> spec_fields_disjoint(r.fields@[p], r.fields@[q]),
            forall|p: int, q: int|
                0 <= p < q < n && p < a ==> r.fields@[p].name@ != r.fields@[q].name@,
            forall|p: int, q: int|
                0 <= p < q < n && p < a ==> r.fields@[p].offset <= r.fields@[q].offset,
        decreases n - a,
    {
        let mut b: usize = a + 1;
        while b < n
            invariant
                0 <= a < b <= n,
                n == r.fields@.len(),
                forall|q: int| a < q < b ==> spec_fields_disjoint(r.fields@[a as int], r.fields@[q]),
                forall|q: int| a < q < b ==> r.fields@[a as int].name@ != (#[trigger] r.fields@[q]).name@,
                forall|q: int| a < q < b ==> r.fields@[a as int].offset <= (#[trigger] r.fields@[q]).offset,
            decreases n - b,
        {
            if !fields_disjoint(&r.fields[a], &r.fields[b]) {
                let mut m = String::from_str("overlapping fields in ");
                m.append(r.name.as_str());
                m.append(": ");
                m.append(r.fields[a].name.as_str());
                m.append(" and ");
                m.append(r.fields[b].name.as_str());
                return Err(Error::Validation { message: m });
            }
            if string_eq(&r.fields[a].name, r.fields[b].name.as_str()) {
                let mut m = String::from_str("duplicate field name in ");
                m.append(r.name.as_str());
                m.append(": ");
                m.append(r.fields[a].name.as_str());
                return Err(Error::Validation { message: m });
            }
            if r.fields[a].offset > r.fields[b].offset {
                let mut m = String::from_str("fields out of order in ");
                m.append(r.name.as_str());
                return Err(Error::Validation { message: m });
            }
            b += 1;
        }
        a += 1;
    }
    Ok(())
}

/// Reads one field row into a `Field`: the name from its text cell, offset
/// and width as numeric literals, the attribute token canonicalized, the
/// reset literal (binary admitted) defaulting to zero on a blank cell, and
/// the description verbatim. Succeeds exactly when every cell parses, and
/// then yields exactly the row's field value.
fn parse_field_row(frame: &Frame, c: Cols, row: usize) -> (r: Result<Field, Error>)
    requires
        frame.wf(),
        spec_cols_ok(*frame, c),
        row < frame.rows@.len(),
    ensures
        r is Ok <==> spec_field_row_ok(frame.rows@[row as int]@, c),
        r matches Ok(f) ==> f@ == spec_field_of_row(frame.rows@[row as int]@, c),
        r matches Err(e) ==> e is ValueParse || e is Validation,
{
    let name = match frame.cell_at(row, c.name) {
        CellValue::Text(s) => s.clone(),
        _ => {
            return Err(Error::ValueParse {
                message: String::from_str("field row lacks a text name cell"),
            });
        },
    };
    let offset = match cell_num(frame.cell_at(row, c.offset), false) {
        Some(v) => v,
        None => {
            let mut m = String::from_str("bad field offset for ");
            m.append(name.as_str());
            return Err(Error::ValueParse { message: m });
        },
    };
    let width = match cell_num(frame.cell_at(row, c.width), false) {
        Some(v) => v,
        None => {
            let mut m = String::from_str("bad field width for ");
            m.append(name.as_str());
            return Err(Error::ValueParse { message: m });
        },
    };
    let attr = match frame.cell_at(row, c.attr) {
        CellValue::Text(s) => match parse_attr(s.as_str()) {
            Some(k) => k,
            None => {
                let mut m = String::from_str("unknown access attribute for ");
                m.append(name.as_str());
                return Err(Error::ValueParse { message: m });
            },
        },
        _ => {
            let mut m = String::from_str("field row lacks an attribute token for ");
            m.append(name.as_str());
            return Err(Error::ValueParse { message: m });
        },
    };
    let reset = match frame.cell_at(row, c.reset) {
        CellValue::Empty => 0,
        cell => match cell_num(cell, true) {
            Some(v) => v,
            None => {
                let mut m = String::from_str("bad reset literal for ");
                m.append(name.as_str());
                return Err(Error::ValueParse { message: m });
            },
        },
    };
    let desc = match frame.cell_at(row, c.desc) {
        CellValue::Text(s) => s.clone(),
        _ => String::new(),
    };
    Ok(Field { name, offset, width, attr, reset, desc })
}

/// Reads one register-boundary row into a `Register` with no fields yet.
fn parse_reg_row(frame: &Frame, c: Cols, row: usize) -> (r: Result<Register, Error>)
    requires
        frame.wf(),
        spec_cols_ok(*frame, c),
        row < frame.rows@.len(),
        spec_row_is_reg(frame.rows@[row as int]@, c),
    ensures
        r is Ok <==> spec_reg_row_ok(frame.rows@[row as int]@, c),
        r matches Ok(reg) ==> {
            &&& reg.name@ == spec_row_name(frame.rows@[row as int]@, c)
            &&& spec_cell_num(frame.rows@[row as int]@[c.offset as int], false) == Some(reg.offset)
            &&& spec_cell_num(frame.rows@[row as int]@[c.size as int], false) == Some(reg.size)
            &&& reg.fields@.len() == 0
        },
        r matches Err(e) ==> e is ValueParse,
{
    let name = match frame.cell_at(row, c.name) {
        CellValue::Text(s) => s.clone(),
        _ => {
            return Err(Error::ValueParse {
                message: String::from_str("register row lacks a text name cell"),
            });
        },
    };
    let offset = match cell_num(frame.cell_at(row, c.offset), false) {
        Some(v) => v,
        None => {
            let mut m = String::from_str("bad register offset for ");
            m.append(name.as_str());
            return Err(Error::ValueParse { message: m });
        },
    };
    let size = match cell_num(frame.cell_at(row, c.size), false) {
        Some(v) => v,
        None => {
            let mut m = String::from_str("bad register size for ");
            m.append(name.as_str());
            return Err(Error::ValueParse { message: m });
        },
    };
    Ok(Register { name, offset, size, fields: Vec::new() })
}

/// Parses one block's frame into its ordered registers. On a frame that
/// parses (`spec_frame_parses`) it succeeds; on success every register is
/// well-formed (fields fit, no overlap, unique identifier names, ascending
/// field offsets), there is exactly one register per boundary row carrying
/// that row's name, offset and size in sheet order, and each register's
/// fields are exactly the parsed field rows grouped under its boundary row.
#[verifier::rlimit(100)]
pub fn parse_register(frame: &Frame) -> (r: Result<Vec<Register>, Error>)
    requires
        frame.wf(),
    ensures
        spec_frame_parses(*frame) ==> r is Ok,
        r matches Ok(regs) ==> {
            &&& forall|i: int| 0 <= i < regs@.len() ==> spec_register_wf(#[trigger] regs@[i])
            &&& exists|c: Cols|
                {
                    &&& #[trigger] spec_cols_ok(*frame, c)
                    &&& regs@.len() == spec_reg_count(frame.rows@, c)
                    &&& regs@.map_values(|reg: Register| reg.name@) == spec_reg_names(
                        frame.rows@,
                        c,
                    )
                    &&& regs@.map_values(|reg: Register| Some(reg.offset)) == spec_reg_offsets(
                        frame.rows@,
                        c,
                    )
                    &&& regs@.map_values(|reg: Register| Some(reg.size)) == spec_reg_sizes(
                        frame.rows@,
                        c,
                    )
                    &&& regs@.len() == spec_boundaries(frame.rows@, c).len()
                    &&& forall|k: int|
                        0 <= k < regs@.len() ==> (#[trigger] regs@[k]).fields@.map_values(
                            |f: Field| f@,
                        ).to_multiset() == spec_fields_for(
                            frame.rows@,
                            c,
                            spec_boundaries(frame.rows@, c)[k],
                        ).to_multiset()
                    &&& forall|t: int|
                        0 <= t < frame.rows@.len() && spec_row_is_field(
                            (#[trigger] frame.rows@[t])@,
                            c,
                        ) ==> spec_field_row_ok(frame.rows@[t]@, c) && spec_prev_reg(
                            frame.rows@,
                            c,
                            t,
                        ) >= 0
                    &&& forall|t: int|
                        0 <= t < frame.rows@.len() && spec_row_is_reg(
                            (#[trigger] frame.rows@[t])@,
                            c,
                        ) ==> spec_reg_row_ok(frame.rows@[t]@, c)
                }
        },
        r matches Err(e) ==> e is ValueParse || e is Validation,
{
    let c = match find_cols(frame) {
        Ok(c) => c,
        Err(e) => {
            proof {
                lemma_not_parses_cols(*frame);
            }
            return Err(e);
        },
    };
    proof {
        lemma_spec_col_range(frame.columns@, "name"@);
        assert(c == spec_cols_of(*frame));
    }
    let n = frame.n_rows();
    let mut regs: Vec<Register> = Vec::new();
    let mut has_pending = false;
    let mut pend_reg = Register {
        name: String::new(),
        offset: 0,
        size: 0,
        fields: Vec::new(),
    };
    let mut pend_fields: Vec<Field> = Vec::new();
    let ghost mut pend_row: int = -1;
    let ghost mut bnds: Seq<int> = Seq::empty();
    let mut i: usize = 0;
    while i < n
        invariant
            0 <= i <= n,
            n == frame.rows@.len(),
            frame.wf(),
            spec_cols_ok(*frame, c),
            spec_cols_exist(*frame) && c == spec_cols_of(*frame),
            forall|k: int| 0 <= k < regs@.len() ==> spec_register_wf(#[trigger] regs@[k]),
            bnds.len() == regs@.len(),
            forall|k: int|
                0 <= k < bnds.len() ==> 0 <= #[trigger] bnds[k] < i && spec_row_is_reg(
                    frame.rows@[bnds[k]]@,
                    c,
                ),
            forall|k: int|
                0 <= k < bnds.len() ==> (#[trigger] regs@[k]).name@ == spec_row_name(
                    frame.rows@[bnds[k]]@,
                    c,
                ) && Some(regs@[k].offset) == spec_cell_num(
                    frame.rows@[bnds[k]]@[c.offset as int],
                    false,
                ) && Some(regs@[k].size) == spec_cell_num(
                    frame.rows@[bnds[k]]@[c.size as int],
                    false,
                ),
            forall|k: int|
                0 <= k < regs@.len() ==> (#[trigger] regs@[k]).fields@.map_values(
                    |f: Field| f@,
                ).to_multiset() == spec_fields_for(
                    frame.rows@.take(i as int),
                    c,
                    bnds[k],
                ).to_multiset(),
            has_pending ==> {
                &&& 0 <= pend_row < i
                &&& spec_row_is_reg(frame.rows@[pend_row]@, c)
                &&& forall|t: int|
                    pend_row < t < i ==> !spec_row_is_reg((#[trigger] frame.rows@[t])@, c)
                &&& forall|k: int| 0 <= k < bnds.len() ==> #[trigger] bnds[k] < pend_row
                &&& pend_reg.name@ == spec_row_name(frame.rows@[pend_row]@, c)
                &&& Some(pend_reg.offset) == spec_cell_num(
                    frame.rows@[pend_row]@[c.offset as int],
                    false,
                )
                &&& Some(pend_reg.size) == spec_cell_num(
                    frame.rows@[pend_row]@[c.size as int],
                    false,
                )
                &&& pend_fields@.map_values(|f: Field| f@) == spec_fields_for(
                    frame.rows@.take(i as int),
                    c,
                    pend_row,
                )
            },
            !has_pending ==> forall|t: int|
                0 <= t < i ==> !spec_row_is_reg((#[trigger] frame.rows@[t])@, c),
            has_pending ==> spec_boundaries(frame.rows@.take(i as int), c) == bnds.push(pend_row),
            !has_pending ==> spec_boundaries(frame.rows@.take(i as int), c) == bnds,
            forall|t: int|
                0 <= t < i && spec_row_is_field((#[trigger] frame.rows@[t])@, c)
                    ==> spec_field_row_ok(frame.rows@[t]@, c) && spec_prev_reg(
                    frame.rows@,
                    c,
                    t,
                ) >= 0,
            forall|t: int|
                0 <= t < i && spec_row_is_reg((#[trigger] frame.rows@[t])@, c)
                    ==> spec_reg_row_ok(frame.rows@[t]@, c),
        decreases n - i,
    {
        proof {
            assert(frame.rows@.take(i + 1).drop_last() =~= frame.rows@.take(i as int));
            assert(frame.rows@.take(i + 1).last() == frame.rows@[i as int]);
            lemma_prev_reg_prefix(frame.rows@, c, i + 1, i as int);
        }
        let is_field_row = match frame.cell_at(i, c.width) {
            CellValue::Empty => false,
            _ => true,
        };
        if is_field_row {
            proof {
                assert(spec_row_is_field(frame.rows@[i as int]@, c));
            }
            if !has_pending {
                proof {
                    lemma_prev_reg_none(frame.rows@, c, i as int);
                    lemma_not_parses_orphan(*frame, i as int);
                }
                return Err(Error::Validation {
                    message: String::from_str("field row appears before any register row"),
                });
            }
            proof {
                lemma_prev_reg_at(frame.rows@, c, i as int, pend_row);
            }
            let field = match parse_field_row(frame, c, i) {
                Ok(f) => f,
                Err(e) => {
                    proof {
                        lemma_not_parses_field_row(*frame, i as int);
                    }
                    return Err(e);
                },
            };
            let ghost old_pf = pend_fields@.map_values(|f: Field| f@);
            pend_fields.push(field);
            proof {
                assert(pend_fields@.map_values(|f: Field| f@) =~= old_pf.push(field@));
                assert(spec_fields_for(frame.rows@.take(i + 1), c, pend_row)
                    == spec_fields_for(frame.rows@.take(i as int), c, pend_row).push(
                    spec_field_of_row(frame.rows@[i as int]@, c),
                ));
                assert forall|k: int| 0 <= k < bnds.len() implies spec_fields_for(
                    frame.rows@.take(i + 1),
                    c,
                    bnds[k],
                ) == spec_fields_for(frame.rows@.take(i as int), c, bnds[k]) by {
                    assert(spec_prev_reg(frame.rows@.take(i + 1), c, i as int) == pend_row);
                    assert(bnds[k] != pend_row);
                }
            }
        } else {
            let is_reg_row = match frame.cell_at(i, c.name) {
                CellValue::Text(_) => true,
                _ => false,
            };
            if is_reg_row {
                proof {
                    assert(spec_row_is_reg(frame.rows@[i as int]@, c));
                    assert(!spec_row_is_field(frame.rows@[i as int]@, c));
                }
                if has_pending {
                    let ghost pf = pend_fields@.map_values(|f: Field| f@);
                    let done = match finish_register(pend_reg, pend_fields) {
                        Ok(d) => d,
                        Err(e) => {
                            proof {
                                lemma_not_parses_assemble(*frame, pend_row, pend_reg, pf, i as int);
                            }
                            return Err(e);
                        },
                    };
                    regs.push(done);
                    proof {
                        bnds = bnds.push(pend_row);
                        assert(done.fields@.map_values(|f: Field| f@).to_multiset()
                            == spec_fields_for(
                            frame.rows@.take(i as int),
                            c,
                            pend_row,
                        ).to_multiset());
                    }
                }
                let new_reg = match parse_reg_row(frame, c, i) {
                    Ok(reg) => reg,
                    Err(e) => {
                        proof {
                            lemma_not_parses_reg_row(*frame, i as int);
                        }
                        return Err(e);
                    },
                };
                pend_reg = new_reg;
                pend_fields = Vec::new();
                has_pending = true;
                proof {
                    pend_row = i as int;
                    lemma_fields_for_high(frame.rows@.take(i + 1), c, i as int);
                    assert(pend_fields@.map_values(|f: Field| f@) =~= Seq::<FieldView>::empty());
                    assert forall|k: int| 0 <= k < bnds.len() implies spec_fields_for(
                        frame.rows@.take(i + 1),
                        c,
                        bnds[k],
                    ) == spec_fields_for(frame.rows@.take(i as int), c, bnds[k]) by {}
                }
            } else {
                proof {
                    assert(!spec_row_is_field(frame.rows@[i as int]@, c));
                    assert(!spec_row_is_reg(frame.rows@[i as int]@, c));
                    if has_pending {
                        assert(spec_fields_for(frame.rows@.take(i + 1), c, pend_row)
                            == spec_fields_for(frame.rows@.take(i as int), c, pend_row));
                    }
                    assert forall|k: int| 0 <= k < bnds.len() implies spec_fields_for(
                        frame.rows@.take(i + 1),
                        c,
                        bnds[k],
                    ) == spec_fields_for(frame.rows@.take(i as int), c, bnds[k]) by {}
                }
            }
        }
        i += 1;
    }
    proof {
        assert(frame.rows@.take(n as int) =~= frame.rows@);
    }
    if has_pending {
        let ghost pf = pend_fields@.map_values(|f: Field| f@);
        let done = match finish_register(pend_reg, pend_fields) {
            Ok(d) => d,
            Err(e) => {
                proof {
                    lemma_not_parses_assemble(*frame, pend_row, pend_reg, pf, n as int);
                }
                return Err(e);
            },
        };
        regs.push(done);
        proof {
            bnds = bnds.push(pend_row);
        }
    }
    proof {
        assert(spec_cols_ok(*frame, c));
        assert(bnds == spec_boundaries(frame.rows@, c));
        lemma_final_seqs(frame.rows@, c, regs@, bnds);
        assert forall|k: int| 0 <= k < regs@.len() implies (#[trigger] regs@[k]).fields@.map_values(
            |f: Field| f@,
        ).to_multiset() == spec_fields_for(
            frame.rows@,
            c,
            spec_boundaries(frame.rows@, c)[k],
        ).to_multiset() by {
            assert(spec_boundaries(frame.rows@, c)[k] == bnds[k]);
        }
    }
    Ok(regs)
}

/// The fields can soundly assemble into the register: an identifier name, a
/// positive size, each field fits and is well-formed, and fields are
/// pairwise compatible — stated over the fields in any order.
pub open spec fn spec_assembles(reg: Register, fs: Seq<FieldView>) -> bool {
    &&& spec_is_ident(reg.name@)
    &&& reg.size >= 1
    &&& forall|t: int| 0 <= t < fs.len() ==> spec_fieldview_wf(#[trigger] fs[t], reg.size)
    &&& forall|t1: int, t2: int|
        0 <= t1 < t2 < fs.len() ==> spec_fieldviews_compat(fs[t1], fs[t2])
}

/// Attaches a register's parsed fields, sorted by bit offset, and validates
/// the result; succeeds exactly when the fields assemble soundly, keeping
/// exactly the given fields.
fn finish_register(reg: Register, fields: Vec<Field>) -> (r: Result<Register, Error>)
    ensures
        r is Ok <==> spec_assembles(reg, fields@.map_values(|f: Field| f@)),
        r matches Ok(out) ==> spec_register_wf(out) && out.name@ == reg.name@ && out.offset
            == reg.offset && out.size == reg.size && out.fields@.map_values(
            |f: Field| f@,
        ).to_multiset() == fields@.map_values(|f: Field| f@).to_multiset(),
        r matches Err(e) ==> e is Validation,
{
    let sorted = sort_fields(fields);
    let out = Register { name: reg.name, offset: reg.offset, size: reg.size, fields: sorted };
    let ghost fin = out.fields@.map_values(|f: Field| f@);
    let ghost fs = fields@.map_values(|f: Field| f@);
    proof {
        assert(fin.to_multiset() == fs.to_multiset());
        assert(fin.len() == out.fields@.len());
        assert forall|t: int| 0 <= t < out.fields@.len() implies (#[trigger] out.fields@[t])@
            == fin[t] by {}
        if spec_assembles(reg, fs) {
            lemma_fieldviews_transfer(fs, fin, reg.size);
            assert forall|t: int|
                0 <= t < out.fields@.len() implies spec_field_wf(
                #[trigger] out.fields@[t],
                out.size as nat,
            ) by {
                assert(spec_fieldview_wf(fin[t], reg.size));
            }
            assert forall|t1: int, t2: int|
                0 <= t1 < t2 < out.fields@.len() implies spec_fields_disjoint(
                out.fields@[t1],
                out.fields@[t2],
            ) && out.fields@[t1].name@ != out.fields@[t2].name@ by {
                assert(spec_fieldviews_compat(fin[t1], fin[t2]));
            }
            assert(spec_is_ident(out.name@));
            assert(out.size >= 1);
            assert(forall|i: int|
                0 <= i < out.fields@.len() ==> spec_field_wf(
                    #[trigger] out.fields@[i],
                    out.size as nat,
                ));
            assert(forall|i: int, j: int|
                0 <= i < j < out.fields@.len() ==> spec_fields_disjoint(
                    out.fields@[i],
                    out.fields@[j],
                ));
            assert forall|i: int, j: int|
                0 <= i < j < out.fields@.len() implies out.fields@[i].name@
                    != out.fields@[j].name@ by {
                assert(spec_fieldviews_compat(fin[i], fin[j]));
            }
            assert(forall|i: int, j: int|
                0 <= i < j < out.fields@.len() ==> out.fields@[i].offset
                    <= out.fields@[j].offset);
            assert(spec_register_wf(out));
        }
        if spec_register_wf(out) {
            assert forall|t: int| 0 <= t < fin.len() implies spec_fieldview_wf(
                #[trigger] fin[t],
                reg.size,
            ) by {
                assert(spec_field_wf(out.fields@[t], out.size as nat));
            }
            assert forall|t1: int, t2: int|
                0 <= t1 < t2 < fin.len() implies spec_fieldviews_compat(fin[t1], fin[t2]) by {
                assert(spec_fields_disjoint(out.fields@[t1], out.fields@[t2]));
                assert(out.fields@[t1].name@ != out.fields@[t2].name@);
            }
            lemma_fieldviews_transfer(fin, fs, reg.size);
            assert(spec_assembles(reg, fs));
        }
    }
    match validate_register(&out) {
        Ok(()) => Ok(out),
        Err(e) => Err(e),
    }
}

} // verus!
