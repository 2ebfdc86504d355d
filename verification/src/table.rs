//! Tabular frames: the in-memory shape of one workbook sheet (a header row of
//! column names over rows of typed cells), and a consumable pool of sheets
//! keyed by sheet name, from which the schema builder takes each required
//! sheet at most once.

use vstd::prelude::*;
use crate::strutil::string_eq;

verus! {

/// One cell of a sheet: blank, text, or a non-negative integer.
#[derive(Debug, Clone, PartialEq)]
pub enum CellValue {
    Empty,
    Text(String),
    Number(u64),
}

/// One sheet as a tabular frame: the header row as column names, and the data
/// rows below it.
#[derive(Debug, Clone, PartialEq)]
pub struct Frame {
    pub columns: Vec<String>,
    pub rows: Vec<Vec<CellValue>>,
}

impl Frame {
    /// Every row has exactly one cell per column.
    pub open spec fn wf(self) -> bool {
        forall|i: int| 0 <= i < self.rows@.len() ==> (#[trigger] self.rows@[i])@.len()
            == self.columns@.len()
    }

    pub fn n_rows(&self) -> (r: usize)
        ensures
            r == self.rows@.len(),
    {
        self.rows.len()
    }

    pub fn n_cols(&self) -> (r: usize)
        ensures
            r == self.columns@.len(),
    {
        self.columns.len()
    }

    /// The index of the first column with the given name, if any.
    pub fn col_index(&self, name: &str) -> (r: Option<usize>)
        ensures
            match r {
                Some(i) => {
                    &&& 0 <= i < self.columns@.len()
                    &&& self.columns@[i as int]@ == name@
                    &&& forall|j: int| 0 <= j < i ==> self.columns@[j]@ != name@
                },
                None => forall|j: int|
                    0 <= j < self.columns@.len() ==> (#[trigger] self.columns@[j])@ != name@,
            },
    {
        let n = self.columns.len();
        let mut i: usize = 0;
        while i < n
            invariant
                0 <= i <= n,
                n == self.columns@.len(),
                forall|j: int| 0 <= j < i ==> (#[trigger] self.columns@[j])@ != name@,
            decreases n - i,
        {
            if string_eq(&self.columns[i], name) {
                return Some(i);
            }
            i += 1;
        }
        None
    }

    /// The cell at data row `r`, column `c`.
    pub fn cell_at(&self, r: usize, c: usize) -> (out: &CellValue)
        requires
            r < self.rows@.len(),
            c < self.rows@[r as int]@.len(),
        ensures
            *out == self.rows@[r as int]@[c as int],
    {
        &self.rows[r][c]
    }
}

/// A consumable pool of sheets: the schema builder resolves the three sheet
/// categories against one shared pool, taking each sheet at most once.
#[derive(Debug, Clone)]
pub struct SheetPool {
    pub entries: Vec<(String, Frame)>,
}

/// Whether some entry carries the given sheet name.
pub open spec fn spec_has_in(s: Seq<(String, Frame)>, name: Seq<char>) -> bool {
    exists|i: int| 0 <= i < s.len() && (#[trigger] s[i]).0@ == name
}

/// The frame of the first entry with the given name (arbitrary if none has it).
pub open spec fn spec_first_frame(s: Seq<(String, Frame)>, name: Seq<char>) -> Frame
    decreases s.len(),
{
    if s.len() == 0 {
        arbitrary()
    } else if s[0].0@ == name {
        s[0].1
    } else {
        spec_first_frame(s.drop_first(), name)
    }
}

/// A first match at index `i` pins down `spec_first_frame`.
pub proof fn lemma_first_frame_at(s: Seq<(String, Frame)>, name: Seq<char>, i: int)
    requires
        0 <= i < s.len(),
        s[i].0@ == name,
        forall|j: int| 0 <= j < i ==> (#[trigger] s[j]).0@ != name,
    ensures
        spec_first_frame(s, name) == s[i].1,
    decreases i,
{
    if i > 0 {
        lemma_first_frame_at(s.drop_first(), name, i - 1);
    }
}

/// Removing an entry of another name changes neither whether a name is
/// present nor which frame is its first match.
pub proof fn lemma_remove_other_name(s: Seq<(String, Frame)>, i: int, name: Seq<char>)
    requires
        0 <= i < s.len(),
        s[i].0@ != name,
    ensures
        spec_has_in(s.remove(i), name) == spec_has_in(s, name),
        spec_has_in(s, name) ==> spec_first_frame(s.remove(i), name) == spec_first_frame(s, name),
    decreases s.len(),
{
    let t = s.remove(i);
    if spec_has_in(s, name) {
        let w = choose|k: int| 0 <= k < s.len() && (#[trigger] s[k]).0@ == name;
        if w < i {
            assert(t[w] == s[w]);
        } else {
            assert(t[w - 1] == s[w]);
        }
        assert(spec_has_in(t, name));
    }
    if spec_has_in(t, name) {
        let w = choose|k: int| 0 <= k < t.len() && (#[trigger] t[k]).0@ == name;
        if w < i {
            assert(s[w] == t[w]);
        } else {
            assert(s[w + 1] == t[w]);
        }
        assert(spec_has_in(s, name));
    }
    if spec_has_in(s, name) {
        if i == 0 {
            assert(s.remove(0) =~= s.drop_first());
        } else {
            if s[0].0@ == name {
                assert(t[0] == s[0]);
            } else {
                assert(s.remove(i).drop_first() =~= s.drop_first().remove(i - 1));
                assert(s.drop_first()[i - 1] == s[i]);
                if spec_has_in(s.drop_first(), name) {
                    lemma_remove_other_name(s.drop_first(), i - 1, name);
                } else {
                    let w = choose|k: int| 0 <= k < s.len() && (#[trigger] s[k]).0@ == name;
                    assert(s.drop_first()[w - 1] == s[w]);
                    assert(spec_has_in(s.drop_first(), name));
                }
                assert(t[0] == s[0]);
            }
        }
    }
}

impl SheetPool {
    /// Whether a sheet of the given name is still in the pool.
    pub open spec fn spec_has(self, name: Seq<char>) -> bool {
        spec_has_in(self.entries@, name)
    }

    /// The frame of the first sheet with the given name.
    pub open spec fn spec_named(self, name: Seq<char>) -> Frame {
        spec_first_frame(self.entries@, name)
    }

    /// Every frame in the pool is well-formed.
    pub open spec fn wf(self) -> bool {
        forall|i: int| 0 <= i < self.entries@.len() ==> (#[trigger] self.entries@[i]).1.wf()
    }

    pub fn new() -> (r: SheetPool)
        ensures
            r.entries@.len() == 0,
            r.wf(),
    {
        SheetPool { entries: Vec::new() }
    }

    pub fn len(&self) -> (r: usize)
        ensures
            r == self.entries@.len(),
    {
        self.entries.len()
    }

    /// Adds a sheet to the pool.
    pub fn add(&mut self, name: String, frame: Frame)
        requires
            frame.wf(),
        ensures
            final(self).entries@ == old(self).entries@.push((name, frame)),
            old(self).wf() ==> final(self).wf(),
    {
        let ghost before = self.entries@;
        self.entries.push((name, frame));
        proof {
            assert forall|i: int|
                0 <= i < self.entries@.len() && old(self).wf() implies (#[trigger] self.entries@[i]).1.wf() by {
                if i < before.len() {
                    assert(self.entries@[i] == before[i]);
                }
            }
        }
    }

    /// Removes and returns the first sheet of the given name, if present.
    pub fn take(&mut self, name: &str) -> (r: Option<Frame>)
        ensures
            r is Some <==> old(self).spec_has(name@),
            r is None ==> *final(self) == *old(self),
            r matches Some(f) ==> exists|i: int|
                {
                    &&& 0 <= i < old(self).entries@.len()
                    &&& (#[trigger] old(self).entries@[i]).0@ == name@
                    &&& forall|j: int| 0 <= j < i ==> (#[trigger] old(self).entries@[j]).0@ != name@
                    &&& f == old(self).entries@[i].1
                    &&& final(self).entries@ == old(self).entries@.remove(i)
                },
            old(self).wf() ==> final(self).wf(),
            r matches Some(f) ==> (old(self).wf() ==> f.wf()),
            final(self).entries@.len() <= old(self).entries@.len(),
    {
        let n = self.entries.len();
        let mut i: usize = 0;
        while i < n
            invariant
                0 <= i <= n,
                n == self.entries@.len(),
                *self == *old(self),
                forall|j: int| 0 <= j < i ==> (#[trigger] self.entries@[j]).0@ != name@,
            decreases n - i,
        {
            if string_eq(&self.entries[i].0, name) {
                let entry = self.entries.remove(i);
                proof {
                    assert(old(self).spec_has(name@));
                    assert forall|k: int|
                        0 <= k < self.entries@.len() && old(self).wf() implies (
                    #[trigger] self.entries@[k]).1.wf() by {
                        assert(self.entries@ == old(self).entries@.remove(i as int));
                        if k < i {
                            assert(self.entries@[k] == old(self).entries@[k]);
                        } else {
                            assert(self.entries@[k] == old(self).entries@[k + 1]);
                        }
                    }
                }
                return Some(entry.1);
            }
            i += 1;
        }
        proof {
            assert(!old(self).spec_has(name@));
        }
        None
    }
}

} // verus!
