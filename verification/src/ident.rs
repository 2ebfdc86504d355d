//! Identifier validity: names in the register map are used verbatim as symbol
//! names in every emitted target language (C, SystemVerilog), so a name is
//! accepted only if it is an ASCII identifier in all of them.

use vstd::prelude::*;

verus! {

/// A character that may start an identifier: a letter or an underscore.
pub open spec fn spec_is_ident_start(c: char) -> bool {
    ('a' as u32 <= c as u32 && c as u32 <= 'z' as u32)
    || ('A' as u32 <= c as u32 && c as u32 <= 'Z' as u32)
    || c == '_'
}

/// A character that may continue an identifier: a letter, digit or underscore.
pub open spec fn spec_is_ident_char(c: char) -> bool {
    spec_is_ident_start(c) || ('0' as u32 <= c as u32 && c as u32 <= '9' as u32)
}

/// A non-empty string of identifier characters that does not start with a digit.
pub open spec fn spec_is_ident(s: Seq<char>) -> bool {
    &&& s.len() > 0
    &&& spec_is_ident_start(s[0])
    &&& forall|i: int| 0 <= i < s.len() ==> spec_is_ident_char(#[trigger] s[i])
}

fn is_ident_start(c: char) -> (r: bool)
    ensures
        r == spec_is_ident_start(c),
{
    let u = c as u32;
    ('a' as u32 <= u && u <= 'z' as u32) || ('A' as u32 <= u && u <= 'Z' as u32) || c == '_'
}

fn is_ident_char(c: char) -> (r: bool)
    ensures
        r == spec_is_ident_char(c),
{
    let u = c as u32;
    is_ident_start(c) || ('0' as u32 <= u && u <= '9' as u32)
}

/// Whether `s` is a valid identifier in every target language the exporters
/// may emit.
pub fn is_valid_ident(s: &str) -> (r: bool)
    ensures
        r == spec_is_ident(s@),
{
    let n = s.unicode_len();
    if n == 0 {
        return false;
    }
    if !is_ident_start(s.get_char(0)) {
        return false;
    }
    let mut i: usize = 1;
    while i < n
        invariant
            1 <= i <= n,
            n == s@.len(),
            spec_is_ident_start(s@[0]),
            forall|j: int| 0 <= j < i ==> spec_is_ident_char(#[trigger] s@[j]),
        decreases n - i,
    {
        if !is_ident_char(s.get_char(i)) {
            return false;
        }
        i += 1;
    }
    true
}

} // verus!
