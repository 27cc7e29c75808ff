//! Laws of the engine, proved once and for all from the specifications the
//! executable functions are verified against: the emission order respects
//! declared dependencies, selection only draws on the filtered candidates,
//! the language filter is exclusive, and an export plan is a function of
//! the document and the arguments alone.

use vstd::prelude::*;

use crate::block::BlockView;
use crate::error::ErrorKind;
use crate::export::{spec_export, spec_target_blocks, ExportActionView, ExporterView};
use crate::lit::{spec_lit_dot, spec_lit_jupyter, spec_lit_python};
use crate::resolver::{
    deps_met, emit_pass, lemma_emit_pass_props, spec_emit_loop, spec_relevant, spec_resolve,
    spec_select,
};
use crate::router::lemma_filter_exclusive;

verus! {

/// Some block before position `i` of the emission sequence carries name `n`.
pub open spec fn dep_precedes(out: Seq<BlockView>, i: int, n: Seq<u8>) -> bool {
    exists|j: int| 0 <= j < i && #[trigger] out[j].name == n
}

/// The ordering contract of an emission sequence: every dependency a block
/// declares names some block emitted strictly before it.
pub open spec fn ordered_by_deps(out: Seq<BlockView>) -> bool {
    forall|i: int, d: int|
        0 <= i < out.len() && 0 <= d < out[i].deps.len() ==> dep_precedes(
            out,
            i,
            #[trigger] out[i].deps[d],
        )
}

/// One emission sweep preserves the pairing of inserted names with emitted
/// blocks and keeps the output ordered by dependencies.
proof fn lemma_emit_pass_ordered(
    blocks: Seq<BlockView>,
    relevant: Seq<Seq<u8>>,
    inserted: Seq<Seq<u8>>,
    out: Seq<BlockView>,
)
    requires
        inserted.len() == out.len(),
        forall|k: int| 0 <= k < out.len() ==> inserted[k] == #[trigger] out[k].name,
        ordered_by_deps(out),
    ensures
        emit_pass(blocks, relevant, inserted, out).0.len() == emit_pass(
            blocks,
            relevant,
            inserted,
            out,
        ).1.len(),
        forall|k: int|
            0 <= k < emit_pass(blocks, relevant, inserted, out).1.len() ==> emit_pass(
                blocks,
                relevant,
                inserted,
                out,
            ).0[k] == #[trigger] emit_pass(blocks, relevant, inserted, out).1[k].name,
        ordered_by_deps(emit_pass(blocks, relevant, inserted, out).1),
    decreases blocks.len(),
{
    if blocks.len() == 0 {
    } else {
        let b = blocks[0];
        if !inserted.contains(b.name) && relevant.contains(b.name) && deps_met(b.deps, inserted) {
            let ins2 = inserted.push(b.name);
            let out2 = out.push(b);
            assert(ordered_by_deps(out2)) by {
                assert forall|i: int, d: int|
                    0 <= i < out2.len() && 0 <= d < out2[i].deps.len() implies dep_precedes(
                    out2,
                    i,
                    #[trigger] out2[i].deps[d],
                ) by {
                    if i < out.len() {
                        assert(out2[i] == out[i]);
                        assert(out2[i].deps[d] == out[i].deps[d]);
                        assert(dep_precedes(out, i, out[i].deps[d]));
                        let j = choose|j: int| 0 <= j < i && #[trigger] out[j].name == out[i].deps[d];
                        assert(out2[j] == out[j]);
                        assert(0 <= j < i && out2[j].name == out2[i].deps[d]);
                    } else {
                        assert(out2[i] == b);
                        assert(out2[i].deps[d] == b.deps[d]);
                        assert(inserted.contains(b.deps[d]));
                        let j = choose|j: int| 0 <= j < inserted.len() && inserted[j] == b.deps[d];
                        assert(inserted[j] == out[j].name);
                        assert(out2[j] == out[j]);
                        assert(0 <= j < i && out2[j].name == out2[i].deps[d]);
                    }
                }
            }
            lemma_emit_pass_ordered(blocks.drop_first(), relevant, ins2, out2);
        } else {
            lemma_emit_pass_ordered(blocks.drop_first(), relevant, inserted, out);
        }
    }
}

/// The emission loop keeps the output ordered by dependencies.
proof fn lemma_emit_loop_ordered(
    blocks: Seq<BlockView>,
    relevant: Seq<Seq<u8>>,
    inserted: Seq<Seq<u8>>,
    out: Seq<BlockView>,
)
    requires
        inserted.len() == out.len(),
        forall|k: int| 0 <= k < out.len() ==> inserted[k] == #[trigger] out[k].name,
        ordered_by_deps(out),
    ensures
        ({
            match spec_emit_loop(blocks, relevant, inserted, out) {
                Result::Ok(o) => ordered_by_deps(o),
                Result::Err(_) => true,
            }
        }),
    decreases relevant.len() - inserted.len(),
{
    let (ins2, out2) = emit_pass(blocks, relevant, inserted, out);
    lemma_emit_pass_ordered(blocks, relevant, inserted, out);
    if ins2.len() >= relevant.len() {
    } else if ins2.len() == inserted.len() {
    } else {
        lemma_emit_pass_props(blocks, relevant, inserted, out);
        lemma_emit_loop_ordered(blocks, relevant, ins2, out2);
    }
}

/// Dependency ordering: in the emission sequence a selection produces,
/// every dependency a block declares names some block that stands strictly
/// before it — whatever order the blocks were declared in.
pub proof fn lemma_dependencies_precede(
    all_blocks: Seq<BlockView>,
    candidates: Seq<BlockView>,
    sel: Seq<u8>,
    out: Seq<BlockView>,
)
    requires
        spec_select(all_blocks, candidates, sel) == Result::Ok::<Seq<BlockView>, ErrorKind>(out),
    ensures
        ordered_by_deps(out),
{
    match spec_resolve(all_blocks, sel) {
        Result::Err(_) => {
        },
        Result::Ok(resolved) => {
            lemma_emit_loop_ordered(
                candidates,
                spec_relevant(all_blocks, resolved),
                Seq::empty(),
                Seq::empty(),
            );
        },
    }
}

/// One emission sweep appends only blocks of the candidate list.
proof fn lemma_emit_pass_members(
    blocks: Seq<BlockView>,
    relevant: Seq<Seq<u8>>,
    inserted: Seq<Seq<u8>>,
    out: Seq<BlockView>,
)
    ensures
        forall|j: int|
            out.len() <= j < emit_pass(blocks, relevant, inserted, out).1.len() ==> blocks.contains(
                #[trigger] emit_pass(blocks, relevant, inserted, out).1[j],
            ),
    decreases blocks.len(),
{
    if blocks.len() == 0 {
    } else {
        let b = blocks[0];
        let r = emit_pass(blocks, relevant, inserted, out);
        if !inserted.contains(b.name) && relevant.contains(b.name) && deps_met(b.deps, inserted) {
            lemma_emit_pass_members(blocks.drop_first(), relevant, inserted.push(b.name), out.push(b));
            assert forall|j: int| out.len() <= j < r.1.len() implies blocks.contains(
                #[trigger] r.1[j],
            ) by {
                if j == out.len() {
                    assert(r.1[j] == b) by {
                        lemma_emit_pass_out_prefix(
                            blocks.drop_first(),
                            relevant,
                            inserted.push(b.name),
                            out.push(b),
                        );
                        assert(r.1 == emit_pass(
                            blocks.drop_first(),
                            relevant,
                            inserted.push(b.name),
                            out.push(b),
                        ).1);
                        assert(r.1.take(out.push(b).len() as int) == out.push(b));
                        assert(r.1.take(out.push(b).len() as int)[j] == r.1[j]);
                        assert(out.push(b)[j] == b);
                    }
                    assert(blocks[0] == b);
                } else {
                    assert(r.1 == emit_pass(
                        blocks.drop_first(),
                        relevant,
                        inserted.push(b.name),
                        out.push(b),
                    ).1);
                    assert(blocks.drop_first().contains(
                        emit_pass(blocks.drop_first(), relevant, inserted.push(b.name), out.push(b)).1[j],
                    ));
                    assert(blocks.drop_first().contains(r.1[j]));
                    let k = choose|k: int|
                        0 <= k < blocks.drop_first().len() && blocks.drop_first()[k] == r.1[j];
                    assert(blocks[k + 1] == r.1[j]);
                }
            }
        } else {
            lemma_emit_pass_members(blocks.drop_first(), relevant, inserted, out);
            assert forall|j: int| out.len() <= j < r.1.len() implies blocks.contains(
                #[trigger] r.1[j],
            ) by {
                assert(r.1 == emit_pass(blocks.drop_first(), relevant, inserted, out).1);
                assert(blocks.drop_first().contains(
                    emit_pass(blocks.drop_first(), relevant, inserted, out).1[j],
                ));
                assert(blocks.drop_first().contains(r.1[j]));
                let k = choose|k: int|
                    0 <= k < blocks.drop_first().len() && blocks.drop_first()[k] == r.1[j];
                assert(blocks[k + 1] == r.1[j]);
            }
        }
    }
}

/// The emitted blocks extend the accumulator: what stood in `out` stays at
/// its position.
proof fn lemma_emit_pass_out_prefix(
    blocks: Seq<BlockView>,
    relevant: Seq<Seq<u8>>,
    inserted: Seq<Seq<u8>>,
    out: Seq<BlockView>,
)
    ensures
        out.len() <= emit_pass(blocks, relevant, inserted, out).1.len(),
        emit_pass(blocks, relevant, inserted, out).1.take(out.len() as int) == out,
    decreases blocks.len(),
{
    if blocks.len() == 0 {
        assert(out.take(out.len() as int) =~= out);
    } else {
        let b = blocks[0];
        if !inserted.contains(b.name) && relevant.contains(b.name) && deps_met(b.deps, inserted) {
            lemma_emit_pass_out_prefix(blocks.drop_first(), relevant, inserted.push(b.name), out.push(b));
            let r = emit_pass(blocks, relevant, inserted, out);
            assert(r.1 == emit_pass(blocks.drop_first(), relevant, inserted.push(b.name), out.push(b)).1);
            assert(r.1.take(out.push(b).len() as int) == out.push(b));
            assert(r.1.take(out.len() as int) =~= r.1.take(out.push(b).len() as int).take(
                out.len() as int,
            ));
            assert(out.push(b).take(out.len() as int) =~= out);
        } else {
            lemma_emit_pass_out_prefix(blocks.drop_first(), relevant, inserted, out);
        }
    }
}

/// The emission loop appends only blocks of the candidate list.
proof fn lemma_emit_loop_members(
    blocks: Seq<BlockView>,
    relevant: Seq<Seq<u8>>,
    inserted: Seq<Seq<u8>>,
    out: Seq<BlockView>,
)
    requires
        forall|j: int| 0 <= j < out.len() ==> blocks.contains(#[trigger] out[j]),
    ensures
        ({
            match spec_emit_loop(blocks, relevant, inserted, out) {
                Result::Ok(o) => forall|j: int|
                    0 <= j < o.len() ==> blocks.contains(#[trigger] o[j]),
                Result::Err(_) => true,
            }
        }),
    decreases relevant.len() - inserted.len(),
{
    let (ins2, out2) = emit_pass(blocks, relevant, inserted, out);
    lemma_emit_pass_members(blocks, relevant, inserted, out);
    lemma_emit_pass_out_prefix(blocks, relevant, inserted, out);
    assert forall|j: int| 0 <= j < out2.len() implies blocks.contains(#[trigger] out2[j]) by {
        if j < out.len() {
            assert(out2.take(out.len() as int) == out);
            assert(out2.take(out.len() as int)[j] == out2[j]);
            assert(out2[j] == out[j]);
            assert(blocks.contains(out[j]));
        }
    }
    if ins2.len() >= relevant.len() {
    } else if ins2.len() == inserted.len() {
    } else {
        lemma_emit_pass_props(blocks, relevant, inserted, out);
        lemma_emit_loop_members(blocks, relevant, ins2, out2);
    }
}

/// Selection draws only on the candidates: every block of the emission
/// sequence is one of the candidate blocks.
pub proof fn lemma_select_members(
    all_blocks: Seq<BlockView>,
    candidates: Seq<BlockView>,
    sel: Seq<u8>,
    out: Seq<BlockView>,
)
    requires
        spec_select(all_blocks, candidates, sel) == Result::Ok::<Seq<BlockView>, ErrorKind>(out),
    ensures
        forall|i: int| 0 <= i < out.len() ==> candidates.contains(#[trigger] out[i]),
{
    match spec_resolve(all_blocks, sel) {
        Result::Err(_) => {
        },
        Result::Ok(resolved) => {
            lemma_emit_loop_members(
                candidates,
                spec_relevant(all_blocks, resolved),
                Seq::empty(),
                Seq::empty(),
            );
            assert forall|i: int| 0 <= i < out.len() implies candidates.contains(
                #[trigger] out[i],
            ) by {
                match spec_emit_loop(
                    candidates,
                    spec_relevant(all_blocks, resolved),
                    Seq::empty(),
                    Seq::empty(),
                ) {
                    Result::Ok(o) => {
                        assert(o == out);
                        assert(candidates.contains(o[i]));
                    },
                    Result::Err(_) => {
                    },
                }
            }
        },
    }
}

/// Language-filter exclusivity: for any target other than the copy-through
/// one, every candidate block of a tangle carries the target's own tag —
/// or is a scripting-language block and the target is the notebook. A block
/// tagged with one language never enters the output routed for another.
pub proof fn lemma_language_filter_exclusive(ex: ExporterView, target: Seq<u8>, i: int)
    requires
        target != spec_lit_dot(),
        0 <= i < spec_target_blocks(ex, target).len(),
    ensures
        spec_target_blocks(ex, target)[i].lang == target || (spec_target_blocks(ex, target)[i].lang
            == spec_lit_python() && target == spec_lit_jupyter()),
{
    lemma_filter_exclusive(ex.src_blocks, target, i);
}

/// Idempotence: an export plan is a function of the parsed document and the
/// arguments alone, so running the same export twice over an unchanged
/// document yields the very same plan — and therefore byte-identical
/// output files once the plan is persisted.
pub proof fn lemma_export_deterministic(
    ex: ExporterView,
    format: Seq<u8>,
    selected: Option<Seq<u8>>,
    out_name: Option<Seq<u8>>,
    r1: Result<ExportActionView, ErrorKind>,
    r2: Result<ExportActionView, ErrorKind>,
)
    requires
        r1 == spec_export(ex, format, selected, out_name),
        r2 == spec_export(ex, format, selected, out_name),
    ensures
        r1 == r2,
{
}

} // verus!
