//! The dependency resolver: given the full block list and a selector, decide
//! which block is meant (exact match first, unique-prefix autocompletion as
//! the fallback), compute the transitive closure of its declared
//! dependencies, and order the closure so that every dependency is emitted
//! before each block that declares it, ties broken by document order.

use vstd::prelude::*;
use vstd::seq_lib::*;
use vstd::set_lib::lemma_len_subset;

use crate::block::{clone_bytes, push_block, BlockView, SrcBlock};
use crate::error::ErrorKind;
use crate::text::{bytes_eq, push_line, starts_with};

verus! {

// ---------------------------------------------------------------------------
// Name resolution
// ---------------------------------------------------------------------------
/// How many blocks carry exactly the name `sel`.
pub open spec fn count_exact(blocks: Seq<BlockView>, sel: Seq<u8>) -> nat
    decreases blocks.len(),
{
    if blocks.len() == 0 {
        0
    } else {
        (if blocks[0].name == sel {
            1nat
        } else {
            0nat
        }) + count_exact(blocks.drop_first(), sel)
    }
}

/// How many blocks carry a name that begins with `sel`.
pub open spec fn count_prefix(blocks: Seq<BlockView>, sel: Seq<u8>) -> nat
    decreases blocks.len(),
{
    if blocks.len() == 0 {
        0
    } else {
        (if sel.is_prefix_of(blocks[0].name) {
            1nat
        } else {
            0nat
        }) + count_prefix(blocks.drop_first(), sel)
    }
}

/// The name of the first block, in document order, whose name begins with
/// `sel`.
pub open spec fn first_prefix_name(blocks: Seq<BlockView>, sel: Seq<u8>) -> Option<Seq<u8>>
    decreases blocks.len(),
{
    if blocks.len() == 0 {
        Option::None
    } else if sel.is_prefix_of(blocks[0].name) {
        Option::Some(blocks[0].name)
    } else {
        first_prefix_name(blocks.drop_first(), sel)
    }
}

/// Resolves a selector against the block list: more than one exact match is
/// ambiguous; with no exact match, a unique prefix match is adopted, no match
/// at all is unknown, and several prefix matches are again ambiguous.
pub open spec fn spec_resolve(blocks: Seq<BlockView>, sel: Seq<u8>) -> Result<Seq<u8>, ErrorKind> {
    if count_exact(blocks, sel) > 1 {
        Result::Err(ErrorKind::AmbiguousCodeBlockName)
    } else if count_exact(blocks, sel) == 0 {
        if count_prefix(blocks, sel) > 1 {
            Result::Err(ErrorKind::AmbiguousCodeBlockName)
        } else if count_prefix(blocks, sel) == 0 {
            Result::Err(ErrorKind::CodeBlockNotFound)
        } else {
            match first_prefix_name(blocks, sel) {
                Option::Some(n) => Result::Ok(n),
                Option::None => Result::Err(ErrorKind::CodeBlockNotFound),
            }
        }
    } else {
        Result::Ok(sel)
    }
}

// ---------------------------------------------------------------------------
// Transitive dependency closure
// ---------------------------------------------------------------------------
/// Appends to `acc` each name of `deps`, in order, that `acc` does not hold
/// yet.
pub open spec fn add_deps(deps: Seq<Seq<u8>>, acc: Seq<Seq<u8>>) -> Seq<Seq<u8>>
    decreases deps.len(),
{
    if deps.len() == 0 {
        acc
    } else {
        add_deps(
            deps.drop_first(),
            if acc.contains(deps[0]) {
                acc
            } else {
                acc.push(deps[0])
            },
        )
    }
}

/// One full sweep over the block list: whenever a block's name is already in
/// the accumulator at the moment the sweep reaches it, the block's
/// dependencies are added.
pub open spec fn closure_pass(blocks: Seq<BlockView>, acc: Seq<Seq<u8>>) -> Seq<Seq<u8>>
    decreases blocks.len(),
{
    if blocks.len() == 0 {
        acc
    } else {
        closure_pass(
            blocks.drop_first(),
            if acc.contains(blocks[0].name) {
                add_deps(blocks[0].deps, acc)
            } else {
                acc
            },
        )
    }
}

/// Every dependency name declared by any block, in document order, with
/// repetitions.
pub open spec fn all_deps(blocks: Seq<BlockView>) -> Seq<Seq<u8>>
    decreases blocks.len(),
{
    if blocks.len() == 0 {
        Seq::empty()
    } else {
        blocks[0].deps + all_deps(blocks.drop_first())
    }
}

/// The accumulator shapes the closure iteration can produce: no repeated
/// name, and every name after the seed is some block's declared dependency.
pub open spec fn closure_wf(blocks: Seq<BlockView>, acc: Seq<Seq<u8>>) -> bool {
    &&& acc.no_duplicates()
    &&& forall|j: int| 1 <= j < acc.len() ==> all_deps(blocks).contains(#[trigger] acc[j])
}

/// The termination measure of the closure iteration: names still addable.
pub open spec fn closure_measure(blocks: Seq<BlockView>, acc: Seq<Seq<u8>>) -> int {
    all_deps(blocks).len() + 1 - acc.len()
}

/// What `add_deps` does to the accumulator: it only appends, it appends only
/// declared dependencies, and it never introduces a repetition.
pub proof fn lemma_add_deps_props(deps: Seq<Seq<u8>>, acc: Seq<Seq<u8>>)
    ensures
        acc.is_prefix_of(add_deps(deps, acc)),
        forall|j: int|
            acc.len() <= j < add_deps(deps, acc).len() ==> deps.contains(
                #[trigger] add_deps(deps, acc)[j],
            ),
        acc.no_duplicates() ==> add_deps(deps, acc).no_duplicates(),
    decreases deps.len(),
{
    if deps.len() == 0 {
    } else {
        let acc1 = if acc.contains(deps[0]) {
            acc
        } else {
            acc.push(deps[0])
        };
        assert(acc.is_prefix_of(acc1)) by {
            assert(acc1.take(acc.len() as int) =~= acc);
        }
        if acc.no_duplicates() {
            assert(acc1.no_duplicates());
        }
        lemma_add_deps_props(deps.drop_first(), acc1);
        let r = add_deps(deps, acc);
        assert(acc.is_prefix_of(r)) by {
            assert(r.take(acc.len() as int) =~= r.take(acc1.len() as int).take(acc.len() as int));
        }
        assert forall|j: int| acc.len() <= j < r.len() implies deps.contains(#[trigger] r[j]) by {
            if j < acc1.len() {
                assert(r[j] == acc1[j]);
                assert(acc1[j] == deps[0]);
                assert(deps.contains(deps[0]));
            } else {
                assert(deps.drop_first().contains(r[j]));
                let k = choose|k: int| 0 <= k < deps.drop_first().len() && deps.drop_first()[k]
                    == r[j];
                assert(deps[k + 1] == r[j]);
            }
        }
    }
}

/// What one closure sweep does: it only appends, it appends only declared
/// dependency names, and it never introduces a repetition.
pub proof fn lemma_closure_pass_props(blocks: Seq<BlockView>, acc: Seq<Seq<u8>>)
    ensures
        acc.is_prefix_of(closure_pass(blocks, acc)),
        forall|j: int|
            acc.len() <= j < closure_pass(blocks, acc).len() ==> all_deps(blocks).contains(
                #[trigger] closure_pass(blocks, acc)[j],
            ),
        acc.no_duplicates() ==> closure_pass(blocks, acc).no_duplicates(),
    decreases blocks.len(),
{
    if blocks.len() == 0 {
    } else {
        let acc1 = if acc.contains(blocks[0].name) {
            add_deps(blocks[0].deps, acc)
        } else {
            acc
        };
        lemma_add_deps_props(blocks[0].deps, acc);
        lemma_closure_pass_props(blocks.drop_first(), acc1);
        let r = closure_pass(blocks, acc);
        assert(acc.is_prefix_of(r)) by {
            assert(r.take(acc.len() as int) =~= r.take(acc1.len() as int).take(acc.len() as int));
        }
        assert forall|j: int| acc.len() <= j < r.len() implies all_deps(blocks).contains(
            #[trigger] r[j],
        ) by {
            let whole = all_deps(blocks);
            if j < acc1.len() {
                assert(r[j] == acc1[j]);
                assert(blocks[0].deps.contains(acc1[j]));
                let k = choose|k: int| 0 <= k < blocks[0].deps.len() && blocks[0].deps[k]
                    == acc1[j];
                assert(whole[k] == acc1[j]);
            } else {
                assert(all_deps(blocks.drop_first()).contains(r[j]));
                let k = choose|k: int|
                    0 <= k < all_deps(blocks.drop_first()).len() && all_deps(
                        blocks.drop_first(),
                    )[k] == r[j];
                assert(whole[blocks[0].deps.len() + k] == r[j]);
            }
        }
    }
}

/// A well-formed accumulator cannot outgrow the dependency pool: its length
/// is at most one (the seed) plus the number of declared dependency names.
pub proof fn lemma_closure_wf_bound(blocks: Seq<BlockView>, acc: Seq<Seq<u8>>)
    requires
        closure_wf(blocks, acc),
    ensures
        acc.len() <= all_deps(blocks).len() + 1,
{
    broadcast use seq_to_set_is_finite;

    if acc.len() > 1 {
        let rest = acc.skip(1);
        assert(rest.no_duplicates()) by {
            assert forall|i: int, j: int| 0 <= i < j < rest.len() implies rest[i] != rest[j] by {
                assert(acc[i + 1] == rest[i]);
                assert(acc[j + 1] == rest[j]);
            }
        }
        rest.unique_seq_to_set();
        all_deps(blocks).lemma_cardinality_of_set();
        assert(rest.to_set().subset_of(all_deps(blocks).to_set())) by {
            assert forall|x: Seq<u8>| rest.to_set().contains(x) implies all_deps(
                blocks,
            ).to_set().contains(x) by {
                assert(rest.contains(x));
                let k = choose|k: int| 0 <= k < rest.len() && rest[k] == x;
                assert(acc[k + 1] == x);
                assert(all_deps(blocks).contains(x));
            }
        }
        lemma_len_subset(rest.to_set(), all_deps(blocks).to_set());
    }
}

/// Sweeps the block list until one full sweep adds nothing: the least fixed
/// point reachable from the accumulator.
pub open spec fn spec_closure_loop(blocks: Seq<BlockView>, acc: Seq<Seq<u8>>) -> Seq<Seq<u8>>
    decreases closure_measure(blocks, acc),
    when closure_wf(blocks, acc)
{
    let acc2 = closure_pass(blocks, acc);
    if acc2.len() == acc.len() {
        acc2
    } else {
        proof {
            lemma_closure_pass_props(blocks, acc);
            assert(closure_wf(blocks, acc2)) by {
                assert forall|j: int| 1 <= j < acc2.len() implies all_deps(blocks).contains(
                    #[trigger] acc2[j],
                ) by {
                    if j < acc.len() {
                        assert(acc2.take(acc.len() as int)[j] == acc2[j]);
                    }
                }
            }
            lemma_closure_wf_bound(blocks, acc2);
        }
        spec_closure_loop(blocks, acc2)
    }
}

/// The set of names that must be emitted for the resolved selection: the
/// closure of the seed under "a selected block drags in its dependencies".
pub open spec fn spec_relevant(blocks: Seq<BlockView>, resolved: Seq<u8>) -> Seq<Seq<u8>> {
    spec_closure_loop(blocks, seq![resolved])
}

// ---------------------------------------------------------------------------
// Emission ordering
// ---------------------------------------------------------------------------
/// Whether every dependency of a block has already been inserted.
pub open spec fn deps_met(deps: Seq<Seq<u8>>, inserted: Seq<Seq<u8>>) -> bool {
    forall|i: int| 0 <= i < deps.len() ==> inserted.contains(#[trigger] deps[i])
}

/// One full sweep over the candidate list in document order, emitting every
/// block that is wanted, not yet inserted, and has all dependencies met at
/// the moment the sweep reaches it.
pub open spec fn emit_pass(
    blocks: Seq<BlockView>,
    relevant: Seq<Seq<u8>>,
    inserted: Seq<Seq<u8>>,
    out: Seq<BlockView>,
) -> (Seq<Seq<u8>>, Seq<BlockView>)
    decreases blocks.len(),
{
    if blocks.len() == 0 {
        (inserted, out)
    } else {
        let b = blocks[0];
        if !inserted.contains(b.name) && relevant.contains(b.name) && deps_met(b.deps, inserted) {
            emit_pass(blocks.drop_first(), relevant, inserted.push(b.name), out.push(b))
        } else {
            emit_pass(blocks.drop_first(), relevant, inserted, out)
        }
    }
}

/// What one emission sweep does to the inserted-name list: it only appends.
pub proof fn lemma_emit_pass_props(
    blocks: Seq<BlockView>,
    relevant: Seq<Seq<u8>>,
    inserted: Seq<Seq<u8>>,
    out: Seq<BlockView>,
)
    ensures
        inserted.is_prefix_of(emit_pass(blocks, relevant, inserted, out).0),
        emit_pass(blocks, relevant, inserted, out).1.len() - out.len() == emit_pass(
            blocks,
            relevant,
            inserted,
            out,
        ).0.len() - inserted.len(),
    decreases blocks.len(),
{
    if blocks.len() == 0 {
    } else {
        let b = blocks[0];
        let r = emit_pass(blocks, relevant, inserted, out);
        if !inserted.contains(b.name) && relevant.contains(b.name) && deps_met(b.deps, inserted) {
            lemma_emit_pass_props(blocks.drop_first(), relevant, inserted.push(b.name), out.push(b));
            assert(inserted.is_prefix_of(inserted.push(b.name))) by {
                assert(inserted.push(b.name).take(inserted.len() as int) =~= inserted);
            }
            assert(r.0.take(inserted.len() as int) =~= r.0.take(
                inserted.push(b.name).len() as int,
            ).take(inserted.len() as int));
        } else {
            lemma_emit_pass_props(blocks.drop_first(), relevant, inserted, out);
        }
    }
}

/// Sweeps the candidates until every wanted name is inserted (success) or a
/// full sweep inserts nothing while names remain (failure: a true cycle, or
/// a dependency no candidate block satisfies).
pub open spec fn spec_emit_loop(
    blocks: Seq<BlockView>,
    relevant: Seq<Seq<u8>>,
    inserted: Seq<Seq<u8>>,
    out: Seq<BlockView>,
) -> Result<Seq<BlockView>, ErrorKind>
    decreases relevant.len() - inserted.len(),
{
    let (ins2, out2) = emit_pass(blocks, relevant, inserted, out);
    if ins2.len() >= relevant.len() {
        Result::Ok(out2)
    } else if ins2.len() == inserted.len() {
        Result::Err(ErrorKind::UnsatisfiableDependencies)
    } else {
        proof {
            lemma_emit_pass_props(blocks, relevant, inserted, out);
        }
        spec_emit_loop(blocks, relevant, ins2, out2)
    }
}

/// A list without repetitions whose every element another list without
/// repetitions contains cannot be the longer one.
pub proof fn lemma_distinct_subset_len(a: Seq<Seq<u8>>, b: Seq<Seq<u8>>)
    requires
        a.no_duplicates(),
        b.no_duplicates(),
        forall|i: int| 0 <= i < a.len() ==> b.contains(#[trigger] a[i]),
    ensures
        a.len() <= b.len(),
{
    broadcast use seq_to_set_is_finite;

    a.unique_seq_to_set();
    b.unique_seq_to_set();
    assert(a.to_set().subset_of(b.to_set())) by {
        assert forall|x: Seq<u8>| a.to_set().contains(x) implies b.to_set().contains(x) by {
            assert(a.contains(x));
        }
    }
    lemma_len_subset(a.to_set(), b.to_set());
}

/// Every declared dependency of every block occurs in `all_deps`.
pub proof fn lemma_all_deps_contains(blocks: Seq<BlockView>, b: int, d: int)
    requires
        0 <= b < blocks.len(),
        0 <= d < blocks[b].deps.len(),
    ensures
        all_deps(blocks).contains(blocks[b].deps[d]),
    decreases b,
{
    if b == 0 {
        assert(all_deps(blocks)[d] == blocks[0].deps[d]);
    } else {
        lemma_all_deps_contains(blocks.drop_first(), b - 1, d);
        let tail = all_deps(blocks.drop_first());
        let k = choose|k: int|
            0 <= k < tail.len() && tail[k] == blocks.drop_first()[b - 1].deps[d];
        assert(all_deps(blocks)[blocks[0].deps.len() + k] == tail[k]);
    }
}

/// The whole selection step: resolve the selector against the full block
/// list, close it under dependencies, then order the candidate blocks.
pub open spec fn spec_select(
    all_blocks: Seq<BlockView>,
    candidates: Seq<BlockView>,
    sel: Seq<u8>,
) -> Result<Seq<BlockView>, ErrorKind> {
    match spec_resolve(all_blocks, sel) {
        Result::Err(e) => Result::Err(e),
        Result::Ok(resolved) => spec_emit_loop(
            candidates,
            spec_relevant(all_blocks, resolved),
            Seq::empty(),
            Seq::empty(),
        ),
    }
}

// ---------------------------------------------------------------------------
// Executable resolver
// ---------------------------------------------------------------------------
/// Tests whether a list of names holds `n`.
pub fn contains_name(names: &Vec<Vec<u8>>, n: &Vec<u8>) -> (r: bool)
    ensures
        r <==> names.deep_view().contains(n@),
{
    let mut i: usize = 0;
    while i < names.len()
        invariant
            i <= names@.len(),
            forall|j: int| 0 <= j < i ==> names.deep_view()[j] != n@,
        decreases names@.len() - i,
    {
        proof {
            assert(names.deep_view()[i as int] == names@[i as int]@);
        }
        if bytes_eq(&names[i], n) {
            return true;
        }
        i = i + 1;
    }
    false
}

/// Resolves the selector `sel` against the full block list, exactly as
/// `spec_resolve` describes: a unique exact match wins; otherwise a unique
/// prefix match is adopted; anything else is an error.
pub fn resolve_selection(all: &Vec<SrcBlock>, sel: &Vec<u8>) -> (r: Result<Vec<u8>, ErrorKind>)
    ensures
        match r {
            Result::Ok(n) => spec_resolve(all.deep_view(), sel@) == Result::Ok::<
                Seq<u8>,
                ErrorKind,
            >(n@),
            Result::Err(e) => spec_resolve(all.deep_view(), sel@) == Result::Err::<
                Seq<u8>,
                ErrorKind,
            >(e),
        },
{
    let ghost dv = all.deep_view();
    let mut exact: usize = 0;
    let mut prefix: usize = 0;
    let mut first_pref: Option<Vec<u8>> = Option::None;
    let mut i: usize = 0;
    proof {
        assert(dv.skip(0) =~= dv);
    }
    while i < all.len()
        invariant
            i <= all@.len(),
            dv == all.deep_view(),
            exact <= i,
            prefix <= i,
            count_exact(dv, sel@) == exact + count_exact(dv.skip(i as int), sel@),
            count_prefix(dv, sel@) == prefix + count_prefix(dv.skip(i as int), sel@),
            match first_pref {
                Option::Some(n) => prefix > 0 && first_prefix_name(dv, sel@)
                    == Option::Some(n@),
                Option::None => prefix == 0 && first_prefix_name(dv, sel@)
                    == first_prefix_name(dv.skip(i as int), sel@),
            },
        decreases all@.len() - i,
    {
        proof {
            assert(dv.skip(i as int).drop_first() =~= dv.skip(i as int + 1));
            assert(dv.skip(i as int)[0] == dv[i as int]);
        }
        if starts_with(&all[i].name, sel) {
            if first_pref.is_none() {
                first_pref = Option::Some(clone_bytes(&all[i].name));
            }
            prefix = prefix + 1;
        }
        if bytes_eq(&all[i].name, sel) {
            exact = exact + 1;
        }
        i = i + 1;
    }
    proof {
        assert(dv.skip(dv.len() as int) =~= Seq::<BlockView>::empty());
    }
    if exact > 1 {
        return Result::Err(ErrorKind::AmbiguousCodeBlockName);
    }
    if exact == 0 {
        if prefix > 1 {
            return Result::Err(ErrorKind::AmbiguousCodeBlockName);
        }
        if prefix == 0 {
            return Result::Err(ErrorKind::CodeBlockNotFound);
        }
        match first_pref {
            Option::Some(n) => {
                return Result::Ok(n);
            },
            Option::None => {
                return Result::Err(ErrorKind::CodeBlockNotFound);
            },
        }
    }
    Result::Ok(clone_bytes(sel))
}

/// Computes the relevant-name list: the resolved name, closed under "a
/// block already relevant drags in its declared dependencies", iterated to a
/// fixed point over the full block list.
pub fn compute_relevant(all: &Vec<SrcBlock>, resolved: Vec<u8>) -> (r: Vec<Vec<u8>>)
    ensures
        r.deep_view() == spec_relevant(all.deep_view(), resolved@),
        r.deep_view().no_duplicates(),
{
    let ghost dv = all.deep_view();
    let ghost seed: Seq<Seq<u8>> = seq![resolved@];
    let mut relevant: Vec<Vec<u8>> = Vec::new();
    push_line(&mut relevant, resolved);
    proof {
        assert(relevant.deep_view() =~= seed);
        assert(closure_wf(dv, seed));
    }
    loop
        invariant_except_break
            dv == all.deep_view(),
            closure_wf(dv, relevant.deep_view()),
            spec_closure_loop(dv, seed) == spec_closure_loop(dv, relevant.deep_view()),
        ensures
            relevant.deep_view() == spec_closure_loop(dv, seed),
            relevant.deep_view().no_duplicates(),
        decreases closure_measure(dv, relevant.deep_view()),
    {
        let ghost start = relevant.deep_view();
        let mut added = false;
        let mut b: usize = 0;
        proof {
            assert(dv.skip(0) =~= dv);
        }
        while b < all.len()
            invariant
                b <= all@.len(),
                dv == all.deep_view(),
                closure_wf(dv, relevant.deep_view()),
                start.len() <= relevant.deep_view().len(),
                closure_pass(dv, start) == closure_pass(
                    dv.skip(b as int),
                    relevant.deep_view(),
                ),
                added <==> relevant.deep_view().len() > start.len(),
            decreases all@.len() - b,
        {
            proof {
                assert(dv.skip(b as int).drop_first() =~= dv.skip(b as int + 1));
                assert(dv.skip(b as int)[0] == dv[b as int]);
            }
            if contains_name(&relevant, &all[b].name) {
                let ghost rel_at_block = relevant.deep_view();
                let ghost bdeps = dv[b as int].deps;
                let deps = &all[b].dependencies;
                let mut d: usize = 0;
                proof {
                    assert(bdeps.skip(0) =~= bdeps);
                }
                while d < deps.len()
                    invariant
                        d <= deps@.len(),
                        dv == all.deep_view(),
                        0 <= (b as int) < dv.len(),
                        bdeps == dv[b as int].deps,
                        deps.deep_view() == bdeps,
                        closure_wf(dv, relevant.deep_view()),
                        start.len() <= rel_at_block.len() <= relevant.deep_view().len(),
                        add_deps(bdeps, rel_at_block) == add_deps(
                            bdeps.skip(d as int),
                            relevant.deep_view(),
                        ),
                        added <==> relevant.deep_view().len() > start.len(),
                    decreases deps@.len() - d,
                {
                    proof {
                        assert(bdeps.skip(d as int).drop_first() =~= bdeps.skip(d as int + 1));
                        assert(bdeps.skip(d as int)[0] == bdeps[d as int]);
                        assert(deps.deep_view()[d as int] == deps@[d as int]@);
                    }
                    if !contains_name(&relevant, &deps[d]) {
                        let ghost before = relevant.deep_view();
                        push_line(&mut relevant, clone_bytes(&deps[d]));
                        proof {
                            lemma_all_deps_contains(dv, b as int, d as int);
                            assert(relevant.deep_view().no_duplicates()) by {
                                assert(forall|k: int|
                                    0 <= k < before.len() ==> relevant.deep_view()[k] == before[k]);
                            }
                        }
                        added = true;
                    }
                    d = d + 1;
                }
                proof {
                    assert(bdeps.skip(deps@.len() as int) =~= Seq::<Seq<u8>>::empty());
                }
            }
            b = b + 1;
        }
        proof {
            assert(dv.skip(dv.len() as int) =~= Seq::<BlockView>::empty());
            // the pass is complete: the in-place list now equals one spec sweep
            assert(relevant.deep_view() == closure_pass(dv, start));
        }
        if !added {
            proof {
                lemma_closure_pass_props(dv, start);
                assert(relevant.deep_view().take(start.len() as int) == start);
                assert(relevant.deep_view() =~= relevant.deep_view().take(start.len() as int));
                assert(spec_closure_loop(dv, start) == start);
            }
            break;
        }
        proof {
            lemma_closure_pass_props(dv, start);
            lemma_closure_wf_bound(dv, relevant.deep_view());
        }
    }
    relevant
}

/// Tests whether every dependency in `deps` has already been inserted.
pub fn deps_satisfied(deps: &Vec<Vec<u8>>, inserted: &Vec<Vec<u8>>) -> (r: bool)
    ensures
        r <==> deps_met(deps.deep_view(), inserted.deep_view()),
{
    let mut d: usize = 0;
    while d < deps.len()
        invariant
            d <= deps@.len(),
            forall|k: int| 0 <= k < d ==> inserted.deep_view().contains(#[trigger] deps.deep_view()[k]),
        decreases deps@.len() - d,
    {
        proof {
            assert(deps.deep_view()[d as int] == deps@[d as int]@);
        }
        if !contains_name(inserted, &deps[d]) {
            return false;
        }
        d = d + 1;
    }
    true
}

/// Orders the candidate blocks: repeated sweeps in document order, emitting
/// every relevant block whose dependencies are already emitted, until all
/// relevant names are placed or a sweep places nothing.
pub fn order_blocks(blocks: &Vec<SrcBlock>, relevant: &Vec<Vec<u8>>) -> (r: Result<
    Vec<SrcBlock>,
    ErrorKind,
>)
    requires
        relevant.deep_view().no_duplicates(),
    ensures
        match r {
            Result::Ok(out) => spec_emit_loop(
                blocks.deep_view(),
                relevant.deep_view(),
                Seq::empty(),
                Seq::empty(),
            ) == Result::Ok::<Seq<BlockView>, ErrorKind>(out.deep_view()),
            Result::Err(e) => spec_emit_loop(
                blocks.deep_view(),
                relevant.deep_view(),
                Seq::empty(),
                Seq::empty(),
            ) == Result::Err::<Seq<BlockView>, ErrorKind>(e),
        },
{
    let ghost bv = blocks.deep_view();
    let ghost rv = relevant.deep_view();
    let mut inserted: Vec<Vec<u8>> = Vec::new();
    let mut out: Vec<SrcBlock> = Vec::new();
    proof {
        assert(inserted.deep_view() =~= Seq::<Seq<u8>>::empty());
        assert(out.deep_view() =~= Seq::<BlockView>::empty());
    }
    loop
        invariant_except_break
            bv == blocks.deep_view(),
            rv == relevant.deep_view(),
            rv.no_duplicates(),
            inserted.deep_view().no_duplicates(),
            forall|j: int|
                0 <= j < inserted.deep_view().len() ==> rv.contains(
                    #[trigger] inserted.deep_view()[j],
                ),
            inserted.deep_view().len() <= rv.len(),
            spec_emit_loop(bv, rv, Seq::empty(), Seq::empty()) == spec_emit_loop(
                bv,
                rv,
                inserted.deep_view(),
                out.deep_view(),
            ),
        ensures
            match spec_emit_loop(bv, rv, Seq::empty(), Seq::empty()) {
                Result::Ok(o) => o == out.deep_view(),
                Result::Err(_) => false,
            },
        decreases rv.len() - inserted.deep_view().len(),
    {
        let ghost ins_start = inserted.deep_view();
        let ghost out_start = out.deep_view();
        let mut new_insertion = false;
        let mut b: usize = 0;
        proof {
            assert(bv.skip(0) =~= bv);
        }
        while b < blocks.len()
            invariant
                b <= bv.len(),
                bv == blocks.deep_view(),
                rv == relevant.deep_view(),
                inserted.deep_view().no_duplicates(),
                forall|j: int|
                    0 <= j < inserted.deep_view().len() ==> rv.contains(
                        #[trigger] inserted.deep_view()[j],
                    ),
                ins_start.len() <= inserted.deep_view().len(),
                emit_pass(bv, rv, ins_start, out_start) == emit_pass(
                    bv.skip(b as int),
                    rv,
                    inserted.deep_view(),
                    out.deep_view(),
                ),
                new_insertion <==> inserted.deep_view().len() > ins_start.len(),
            decreases bv.len() - b,
        {
            proof {
                assert(bv.skip(b as int).drop_first() =~= bv.skip(b as int + 1));
                assert(bv.skip(b as int)[0] == bv[b as int]);
            }
            let already = contains_name(&inserted, &blocks[b].name);
            let wanted = contains_name(relevant, &blocks[b].name);
            if !already && wanted {
                if deps_satisfied(&blocks[b].dependencies, &inserted) {
                    let ghost before = inserted.deep_view();
                    push_line(&mut inserted, clone_bytes(&blocks[b].name));
                    push_block(&mut out, blocks[b].duplicate());
                    proof {
                        assert(inserted.deep_view().no_duplicates()) by {
                            assert(forall|k: int|
                                0 <= k < before.len() ==> inserted.deep_view()[k] == before[k]);
                        }
                    }
                    new_insertion = true;
                }
            }
            b = b + 1;
        }
        proof {
            assert(bv.skip(bv.len() as int) =~= Seq::<BlockView>::empty());
            assert((inserted.deep_view(), out.deep_view()) == emit_pass(bv, rv, ins_start, out_start));
        }
        if inserted.len() >= relevant.len() {
            break;
        }
        if !new_insertion {
            return Result::Err(ErrorKind::UnsatisfiableDependencies);
        }
        proof {
            lemma_distinct_subset_len(inserted.deep_view(), rv);
        }
    }
    Result::Ok(out)
}

/// Filters and orders the candidate list in place: resolve the selector
/// against the full block list, close it under dependencies, and replace the
/// candidates by the ordered emission sequence.
pub fn select_blocks_in(all: &Vec<SrcBlock>, name: &Vec<u8>, candidates: &mut Vec<SrcBlock>) -> (r:
    Result<(), ErrorKind>)
    ensures
        match r {
            Result::Ok(()) => spec_select(all.deep_view(), old(candidates).deep_view(), name@)
                == Result::Ok::<Seq<BlockView>, ErrorKind>(final(candidates).deep_view()),
            Result::Err(e) => spec_select(all.deep_view(), old(candidates).deep_view(), name@)
                == Result::Err::<Seq<BlockView>, ErrorKind>(e),
        },
{
    let resolved = match resolve_selection(all, name) {
        Result::Ok(n) => n,
        Result::Err(e) => {
            return Result::Err(e);
        },
    };
    let relevant = compute_relevant(all, resolved);
    match order_blocks(candidates, &relevant) {
        Result::Ok(out) => {
            *candidates = out;
            Result::Ok(())
        },
        Result::Err(e) => Result::Err(e),
    }
}

} // verus!
