//! The directive engine: directives share the parameter-schema machinery
//! of the instruction table but run a side-effecting routine instead of
//! emitting a word.

use vstd::prelude::*;

verus! {

use crate::bytes::spec_upper;
use crate::inst::operand::{op, Kind, Ops};
use crate::inst::util::{is_variant, NarrowVariant, Param};

/// What can go wrong while running a directive.
#[derive(Debug, Clone, Copy, PartialEq, Eq, Structural)]
pub enum Error {
    /// The arguments match no directive schema.
    Unmatched,
}

/// The directive names (the codes spell `global`).
#[allow(non_camel_case_types)]
#[derive(Debug, Clone, Copy, PartialEq, Eq, Structural)]
pub enum Name {
    global,
}

/// The directive named by an upper-case byte string.
pub open spec fn spec_name_of(s: Seq<u8>) -> Option<Name> {
    if s == seq![71u8, 76u8, 79u8, 66u8, 65u8, 76u8] {
        Some(Name::global)
    } else {
        None
    }
}

impl Name {
    /// Looks a directive up by name, written all lower case or all upper
    /// case.
    pub fn from_str_lower_or_upper(s: &[u8]) -> (r: Option<Name>)
        ensures
            r == spec_name_of(s@.map_values(|c: u8| spec_upper(c))),
    {
        let pat: Vec<u8> = vec![71u8, 76u8, 79u8, 66u8, 65u8, 76u8];
        if crate::bytes::bytes_eq_upper(s, pat.as_slice()) {
            proof {
                assert(pat@ =~= seq![71u8, 76u8, 79u8, 66u8, 65u8, 76u8]);
            }
            Some(Name::global)
        } else {
            proof {
                assert(pat@ =~= seq![71u8, 76u8, 79u8, 66u8, 65u8, 76u8]);
            }
            None
        }
    }
}

/// A fresh selector over the schema of a directive.
pub fn narrow_variant(name: Name) -> (r: NarrowVariant)
    ensures
        r.wf(),
        r.index == 0,
        r.variants@.len() == 1,
        forall|i: int| 0 <= i < r.variants@.len() ==> r.spec_alive(i),
        r.variants@[0]@ == seq![Param::Req(Kind::Label)],
{
    let mut schema: Vec<Param> = Vec::new();
    match name {
        Name::global => {
            schema.push(Param::Req(Kind::Label));
        },
    }
    let mut schemas: Vec<Vec<Param>> = Vec::new();
    schemas.push(schema);
    NarrowVariant::new(schemas)
}

/// Marks a label for export. The core records nothing further; the
/// object writer reads the symbol table directly.
pub fn global(label: op::Label) -> (r: Result<(), Error>)
    ensures
        r is Ok,
{
    Ok(())
}

/// Runs the directive whose schema the operands match: succeeds exactly
/// when the operands fit the directive's schema.
pub fn select_and_run(name: Name, ops: &Vec<Ops>) -> (r: Result<(), Error>)
    ensures
        r is Ok <==> ops@.len() == 1 && ops@[0] is Label,
{
    match name {
        Name::global => {
            if ops.len() == 1 {
                let first = &ops[0];
                match first {
                    Ops::Label(l) => global(*l),
                    _ => Err(Error::Unmatched),
                }
            } else {
                Err(Error::Unmatched)
            }
        },
    }
}

} // verus!
