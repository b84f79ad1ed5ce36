//! The assembler pipeline: scanning, parsing, operand analysis and
//! emission, driven one top-level item at a time.

use vstd::prelude::*;

pub mod arg;
pub mod emit;
pub mod lex;
pub mod parse;
pub mod parser;

verus! {

use crate::code::Source;

/// Assembles a whole source buffer: parses top-level items, feeds each
/// to the emitter, then applies the recorded label fixups. Returns the
/// emitter with the finished image, symbol table and recorded faults:
/// it is reachable from a fresh emitter by processing some sequence of
/// parsed items and draining the fixups (the tokenization itself is
/// pinned only by the scanner's contracts and the test suite).
pub fn assemble(source: &Source) -> (r: emit::Emit)
    ensures
        r.wf(),
        r.labels.fixups@.len() == 0,
        exists|items: Seq<parse::Top>, e0: emit::Emit, mid: emit::Emit|
            (forall|i: int|
                0 <= i < items.len() ==> (#[trigger] items[i]).wf(source.content@.len() as int))
                && emit::spec_emit_initial(e0) && #[trigger] emit::spec_items_processed(
                e0,
                source.content@,
                items,
                mid,
            ) && #[trigger] emit::spec_drained(mid, r),
{
    let mut parser = parse::Parser::new(source);
    let mut tops: Vec<parse::Top> = Vec::new();
    loop
        invariant
            parser.wf(),
            parser.it.scanner.src == source,
            forall|k: int|
                0 <= k < tops@.len() ==> (#[trigger] tops@[k]).wf(source.content@.len() as int),
        decreases parser.remaining(),
    {
        match parser.next() {
            Some(top) => {
                tops.push(top);
            },
            None => {
                break ;
            },
        }
    }
    let e = emit::process_items(source, &tops);
    proof {
        let (e0, mid) = choose|e0: emit::Emit, mid: emit::Emit|
            emit::spec_emit_initial(e0) && #[trigger] emit::spec_items_processed(
                e0,
                source.content@,
                tops@,
                mid,
            ) && #[trigger] emit::spec_drained(mid, e);
        assert(emit::spec_items_processed(e0, source.content@, tops@, mid));
    }
    e
}

} // verus!
