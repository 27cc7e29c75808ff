//! The output router: filter the ordered blocks down to the requested
//! target language, then place their lines into one output file (single-file
//! mode), into one file per declared destination (copy-through mode), or
//! into a notebook container, and derive default output file names.

use vstd::prelude::*;

use crate::block::{
    clone_bytes, clone_lines, push_block, push_file, set_file, BlockView, FileContent,
    FileContentView, LangMapping, LangMappingView, SrcBlock,
};
use crate::lit::{
    build_suffix_table, lit_jupyter, lit_python, notebook_cell_head, notebook_cell_tail,
    notebook_trailer, spec_lit_jupyter, spec_lit_python, spec_notebook_cell_head,
    spec_notebook_cell_tail, spec_notebook_trailer, spec_suffix_table,
};
use crate::text::{append_bytes, append_lines, bytes_eq, push_line, replace_all, set_line, spec_replace_all};

verus! {

// ---------------------------------------------------------------------------
// Language filtering
// ---------------------------------------------------------------------------
/// Whether a block tagged `lang` belongs to the output for `target`: the
/// tags must be equal, except that a notebook target also admits blocks
/// tagged with the default scripting language.
pub open spec fn admits(lang: Seq<u8>, target: Seq<u8>) -> bool {
    lang == target || (lang == spec_lit_python() && target == spec_lit_jupyter())
}

/// The blocks that belong to the output for `target`, in their given order.
pub open spec fn spec_filter_blocks(blocks: Seq<BlockView>, target: Seq<u8>) -> Seq<BlockView>
    decreases blocks.len(),
{
    if blocks.len() == 0 {
        Seq::empty()
    } else if admits(blocks[0].lang, target) {
        seq![blocks[0]] + spec_filter_blocks(blocks.drop_first(), target)
    } else {
        spec_filter_blocks(blocks.drop_first(), target)
    }
}

/// No block in the filtered list carries a foreign tag: every kept block is
/// tagged with the target itself, or is a scripting-language block admitted
/// by the notebook target.
pub proof fn lemma_filter_exclusive(blocks: Seq<BlockView>, target: Seq<u8>, i: int)
    requires
        0 <= i < spec_filter_blocks(blocks, target).len(),
    ensures
        admits(spec_filter_blocks(blocks, target)[i].lang, target),
    decreases blocks.len(),
{
    if blocks.len() > 0 {
        if admits(blocks[0].lang, target) {
            if i > 0 {
                lemma_filter_exclusive(blocks.drop_first(), target, i - 1);
            }
        } else {
            lemma_filter_exclusive(blocks.drop_first(), target, i);
        }
    }
}

/// Copies the blocks that belong to the output for `target`.
pub fn filter_blocks(blocks: &Vec<SrcBlock>, target: &Vec<u8>) -> (r: Vec<SrcBlock>)
    ensures
        r.deep_view() == spec_filter_blocks(blocks.deep_view(), target@),
{
    let ghost bv = blocks.deep_view();
    let python = lit_python();
    let jupyter = lit_jupyter();
    let mut r: Vec<SrcBlock> = Vec::new();
    let mut i: usize = 0;
    proof {
        assert(bv.skip(0) =~= bv);
        assert(Seq::<BlockView>::empty() + spec_filter_blocks(bv, target@) =~= spec_filter_blocks(
            bv,
            target@,
        ));
    }
    while i < blocks.len()
        invariant
            i <= bv.len(),
            bv == blocks.deep_view(),
            python@ == spec_lit_python(),
            jupyter@ == spec_lit_jupyter(),
            spec_filter_blocks(bv, target@) == r.deep_view() + spec_filter_blocks(
                bv.skip(i as int),
                target@,
            ),
        decreases bv.len() - i,
    {
        proof {
            assert(bv.skip(i as int).drop_first() =~= bv.skip(i as int + 1));
            assert(bv.skip(i as int)[0] == bv[i as int]);
        }
        let keep = bytes_eq(&blocks[i].lang, target) || (bytes_eq(&blocks[i].lang, &python)
            && bytes_eq(target, &jupyter));
        if keep {
            let ghost old_r = r.deep_view();
            push_block(&mut r, blocks[i].duplicate());
            proof {
                assert(old_r + (seq![bv[i as int]] + spec_filter_blocks(
                    bv.skip(i as int + 1),
                    target@,
                )) =~= r.deep_view() + spec_filter_blocks(bv.skip(i as int + 1), target@));
            }
        }
        i = i + 1;
    }
    proof {
        assert(bv.skip(bv.len() as int) =~= Seq::<BlockView>::empty());
        assert(r.deep_view() + Seq::<BlockView>::empty() =~= r.deep_view());
    }
    r
}

// ---------------------------------------------------------------------------
// Single-file concatenation
// ---------------------------------------------------------------------------
/// The lines of all non-empty blocks in order, each block followed by one
/// blank separator line.
pub open spec fn spec_concat_lines(blocks: Seq<BlockView>) -> Seq<Seq<u8>>
    decreases blocks.len(),
{
    if blocks.len() == 0 {
        Seq::empty()
    } else if blocks[0].lines.len() > 0 {
        blocks[0].lines + seq![Seq::<u8>::empty()] + spec_concat_lines(blocks.drop_first())
    } else {
        spec_concat_lines(blocks.drop_first())
    }
}

/// The single output file's lines: the concatenation above with the one
/// trailing separator blank, if any line was emitted at all, trimmed from
/// the very end — interior separators stay.
pub open spec fn spec_single_file(blocks: Seq<BlockView>) -> Seq<Seq<u8>> {
    let c = spec_concat_lines(blocks);
    if c.len() > 0 {
        c.drop_last()
    } else {
        c
    }
}

/// Concatenates the blocks' lines for single-file output.
pub fn single_file_lines(blocks: &Vec<SrcBlock>) -> (r: Vec<Vec<u8>>)
    ensures
        r.deep_view() == spec_single_file(blocks.deep_view()),
{
    let ghost bv = blocks.deep_view();
    let mut out: Vec<Vec<u8>> = Vec::new();
    let mut i: usize = 0;
    proof {
        assert(bv.skip(0) =~= bv);
        assert(Seq::<Seq<u8>>::empty() + spec_concat_lines(bv) =~= spec_concat_lines(bv));
    }
    while i < blocks.len()
        invariant
            i <= bv.len(),
            bv == blocks.deep_view(),
            spec_concat_lines(bv) == out.deep_view() + spec_concat_lines(bv.skip(i as int)),
        decreases bv.len() - i,
    {
        proof {
            assert(bv.skip(i as int).drop_first() =~= bv.skip(i as int + 1));
            assert(bv.skip(i as int)[0] == bv[i as int]);
        }
        if blocks[i].lines.len() > 0 {
            let ghost before = out.deep_view();
            append_lines(&mut out, &blocks[i].lines);
            push_line(&mut out, Vec::new());
            proof {
                assert(out.deep_view() =~= before + bv[i as int].lines + seq![Seq::<u8>::empty()]);
                assert(before + (bv[i as int].lines + seq![Seq::<u8>::empty()] + spec_concat_lines(
                    bv.skip(i as int + 1),
                )) =~= out.deep_view() + spec_concat_lines(bv.skip(i as int + 1)));
            }
        }
        i = i + 1;
    }
    proof {
        assert(bv.skip(bv.len() as int) =~= Seq::<BlockView>::empty());
        assert(out.deep_view() + Seq::<Seq<u8>>::empty() =~= out.deep_view());
    }
    if out.len() > 0 {
        let ghost before = out.deep_view();
        out.pop();
        proof {
            assert(out.deep_view() =~= before.drop_last());
        }
    }
    out
}

// ---------------------------------------------------------------------------
// Default output file names
// ---------------------------------------------------------------------------
/// The part of the path after the last slash, scanned left to right with
/// `cur` holding the component read so far.
pub open spec fn spec_last_component_acc(s: Seq<u8>, cur: Seq<u8>) -> Seq<u8>
    decreases s.len(),
{
    if s.len() == 0 {
        cur
    } else if s[0] == 47 {
        spec_last_component_acc(s.drop_first(), Seq::empty())
    } else {
        spec_last_component_acc(s.drop_first(), cur.push(s[0]))
    }
}

/// The file-name component of a path: what follows the last slash.
pub open spec fn spec_last_component(s: Seq<u8>) -> Seq<u8> {
    spec_last_component_acc(s, Seq::empty())
}

/// The part of a file name before the first dot.
pub open spec fn spec_stem_prefix(s: Seq<u8>) -> Seq<u8>
    decreases s.len(),
{
    if s.len() == 0 {
        s
    } else if s[0] == 46 {
        Seq::empty()
    } else {
        seq![s[0]] + spec_stem_prefix(s.drop_first())
    }
}

/// The stem of the document path: its file-name component up to the first
/// dot.
pub open spec fn spec_doc_stem(path: Seq<u8>) -> Seq<u8> {
    spec_stem_prefix(spec_last_component(path))
}

/// Computes the stem of the document path.
pub fn doc_stem(path: &Vec<u8>) -> (r: Vec<u8>)
    ensures
        r@ == spec_doc_stem(path@),
{
    let mut cur: Vec<u8> = Vec::new();
    let mut i: usize = 0;
    proof {
        assert(path@.skip(0) =~= path@);
    }
    while i < path.len()
        invariant
            i <= path@.len(),
            spec_last_component(path@) == spec_last_component_acc(path@.skip(i as int), cur@),
        decreases path@.len() - i,
    {
        proof {
            assert(path@.skip(i as int).drop_first() =~= path@.skip(i as int + 1));
            assert(path@.skip(i as int)[0] == path@[i as int]);
        }
        if path[i] == 47 {
            cur = Vec::new();
        } else {
            cur.push(path[i]);
        }
        i = i + 1;
    }
    proof {
        assert(path@.skip(path@.len() as int) =~= Seq::<u8>::empty());
    }
    let mut r: Vec<u8> = Vec::new();
    let mut k: usize = 0;
    proof {
        assert(cur@.skip(0) =~= cur@);
        assert(Seq::<u8>::empty() + spec_stem_prefix(cur@) =~= spec_stem_prefix(cur@));
    }
    while k < cur.len() && cur[k] != 46
        invariant
            k <= cur@.len(),
            spec_stem_prefix(cur@) == r@ + spec_stem_prefix(cur@.skip(k as int)),
        decreases cur@.len() - k,
    {
        proof {
            assert(cur@.skip(k as int).drop_first() =~= cur@.skip(k as int + 1));
            assert(cur@.skip(k as int)[0] == cur@[k as int]);
        }
        let ghost old_r = r@;
        r.push(cur[k]);
        proof {
            assert(old_r + (seq![cur@[k as int]] + spec_stem_prefix(cur@.skip(k as int + 1))) =~= r@
                + spec_stem_prefix(cur@.skip(k as int + 1)));
        }
        k = k + 1;
    }
    proof {
        if k == cur@.len() {
            assert(cur@.skip(k as int) =~= Seq::<u8>::empty());
        }
        assert(spec_stem_prefix(cur@.skip(k as int)) =~= Seq::<u8>::empty());
        assert(r@ + Seq::<u8>::empty() =~= r@);
    }
    r
}

/// The first suffix a mapping list declares for `lang`, if any.
pub open spec fn spec_lookup(maps: Seq<LangMappingView>, lang: Seq<u8>) -> Option<Seq<u8>>
    decreases maps.len(),
{
    if maps.len() == 0 {
        Option::None
    } else if maps[0].lang == lang {
        Option::Some(maps[0].suffix)
    } else {
        spec_lookup(maps.drop_first(), lang)
    }
}

/// Looks `lang` up in a mapping list, first declaration wins.
pub fn lookup_suffix(maps: &Vec<LangMapping>, lang: &Vec<u8>) -> (r: Option<Vec<u8>>)
    ensures
        match r {
            Option::Some(s) => spec_lookup(maps.deep_view(), lang@) == Option::Some(s@),
            Option::None => spec_lookup(maps.deep_view(), lang@) == Option::None::<Seq<u8>>,
        },
{
    let ghost mv = maps.deep_view();
    let mut i: usize = 0;
    proof {
        assert(mv.skip(0) =~= mv);
    }
    while i < maps.len()
        invariant
            i <= mv.len(),
            mv == maps.deep_view(),
            spec_lookup(mv, lang@) == spec_lookup(mv.skip(i as int), lang@),
        decreases mv.len() - i,
    {
        proof {
            assert(mv.skip(i as int).drop_first() =~= mv.skip(i as int + 1));
            assert(mv.skip(i as int)[0] == mv[i as int]);
        }
        if bytes_eq(&maps[i].lang, lang) {
            return Option::Some(clone_bytes(&maps[i].suffix));
        }
        i = i + 1;
    }
    proof {
        assert(mv.skip(mv.len() as int) =~= Seq::<LangMappingView>::empty());
    }
    Option::None
}

/// The default output file name for `target`: the document stem, carrying
/// the well-known suffix of the target if there is one, else the suffix the
/// document itself declared for it, else no suffix at all; an empty target
/// also yields the bare stem.
pub open spec fn spec_output_file_name(
    path: Seq<u8>,
    target: Seq<u8>,
    doc_langs: Seq<LangMappingView>,
) -> Seq<u8> {
    let stem = spec_doc_stem(path);
    if target.len() == 0 {
        stem
    } else {
        match spec_lookup(spec_suffix_table(), target) {
            Option::Some(sfx) => stem + seq![46u8] + sfx,
            Option::None => match spec_lookup(doc_langs, target) {
                Option::Some(sfx) => stem + seq![46u8] + sfx,
                Option::None => stem,
            },
        }
    }
}

/// Derives the default output file name for `target` from the document path
/// and the document-declared mappings.
pub fn output_file_name_for(path: &Vec<u8>, target: &Vec<u8>, doc_langs: &Vec<LangMapping>) -> (r:
    Vec<u8>)
    ensures
        r@ == spec_output_file_name(path@, target@, doc_langs.deep_view()),
{
    let mut stem = doc_stem(path);
    if target.len() == 0 {
        return stem;
    }
    let table = build_suffix_table();
    let sfx = match lookup_suffix(&table, target) {
        Option::Some(s) => Option::Some(s),
        Option::None => lookup_suffix(doc_langs, target),
    };
    match sfx {
        Option::Some(s) => {
            stem.push(46);
            append_bytes(&mut stem, &s);
            proof {
                assert(spec_doc_stem(path@).push(46u8) =~= spec_doc_stem(path@) + seq![46u8]);
            }
            stem
        },
        Option::None => stem,
    }
}

// ---------------------------------------------------------------------------
// Copy-through routing: one file per declared destination
// ---------------------------------------------------------------------------
/// The position of the first output file named `name`, if one exists.
pub open spec fn spec_file_index(files: Seq<FileContentView>, name: Seq<u8>) -> Option<int>
    decreases files.len(),
{
    if files.len() == 0 {
        Option::None
    } else if files[0].name == name {
        Option::Some(0int)
    } else {
        match spec_file_index(files.drop_first(), name) {
            Option::Some(i) => Option::Some(i + 1),
            Option::None => Option::None,
        }
    }
}

/// If `j` is the first position whose file is named `name`, the index
/// function finds exactly `j`.
pub proof fn lemma_file_index_found(files: Seq<FileContentView>, name: Seq<u8>, j: int)
    requires
        0 <= j < files.len(),
        files[j].name == name,
        forall|k: int| 0 <= k < j ==> files[k].name != name,
    ensures
        spec_file_index(files, name) == Option::Some(j),
    decreases j,
{
    if j > 0 {
        lemma_file_index_found(files.drop_first(), name, j - 1);
    }
}

/// If no file is named `name`, the index function finds nothing.
pub proof fn lemma_file_index_absent(files: Seq<FileContentView>, name: Seq<u8>)
    requires
        forall|k: int| 0 <= k < files.len() ==> files[k].name != name,
    ensures
        spec_file_index(files, name) == Option::None::<int>,
    decreases files.len(),
{
    if files.len() > 0 {
        lemma_file_index_absent(files.drop_first(), name);
    }
}

/// Finds the first output file named `name`.
pub fn find_file(files: &Vec<FileContent>, name: &Vec<u8>) -> (r: Option<usize>)
    ensures
        match r {
            Option::Some(i) => i < files@.len() && spec_file_index(files.deep_view(), name@)
                == Option::Some(i as int),
            Option::None => spec_file_index(files.deep_view(), name@) == Option::None::<int>,
        },
{
    let ghost fv = files.deep_view();
    let mut j: usize = 0;
    while j < files.len()
        invariant
            j <= fv.len(),
            fv == files.deep_view(),
            forall|k: int| 0 <= k < j ==> fv[k].name != name@,
        decreases fv.len() - j,
    {
        proof {
            assert(fv[j as int].name == files@[j as int].name@);
        }
        if bytes_eq(&files[j].name, name) {
            proof {
                lemma_file_index_found(fv, name@, j as int);
            }
            return Option::Some(j);
        }
        j = j + 1;
    }
    proof {
        lemma_file_index_absent(fv, name@);
    }
    Option::None
}

/// The file list with `lines` and a blank separator appended to file `i`.
pub open spec fn spec_append_to(
    files: Seq<FileContentView>,
    i: int,
    lines: Seq<Seq<u8>>,
) -> Seq<FileContentView> {
    files.update(
        i,
        FileContentView {
            name: files[i].name,
            lines: files[i].lines + lines + seq![Seq::<u8>::empty()],
        },
    )
}

/// Where one block's lines go in copy-through mode: to the file its
/// destination names, created on first encounter, or to the first (default)
/// file when it has no destination; the block's lines are followed by one
/// blank separator line in every case.
pub open spec fn spec_route_step(files: Seq<FileContentView>, b: BlockView) -> Seq<
    FileContentView,
> {
    match b.filename {
        Option::None => spec_append_to(files, 0, b.lines),
        Option::Some(f) => match spec_file_index(files, f) {
            Option::Some(i) => spec_append_to(files, i, b.lines),
            Option::None => files.push(
                FileContentView { name: f, lines: b.lines + seq![Seq::<u8>::empty()] },
            ),
        },
    }
}

/// Copy-through routing of all blocks, in order, into the file list.
pub open spec fn spec_route(files: Seq<FileContentView>, blocks: Seq<BlockView>) -> Seq<
    FileContentView,
>
    decreases blocks.len(),
{
    if blocks.len() == 0 {
        files
    } else {
        spec_route(spec_route_step(files, blocks[0]), blocks.drop_first())
    }
}

/// Distributes the blocks' lines over the output files, one file per
/// distinct declared destination in encounter order, blocks without a
/// destination going to the first file.
pub fn cp_src_to_files(blocks: &Vec<SrcBlock>, files: &mut Vec<FileContent>)
    requires
        old(files)@.len() >= 1,
    ensures
        final(files).deep_view() == spec_route(old(files).deep_view(), blocks.deep_view()),
{
    let ghost bv = blocks.deep_view();
    let mut i: usize = 0;
    proof {
        assert(bv.skip(0) =~= bv);
    }
    while i < blocks.len()
        invariant
            i <= bv.len(),
            bv == blocks.deep_view(),
            files@.len() >= 1,
            spec_route(old(files).deep_view(), bv) == spec_route(
                files.deep_view(),
                bv.skip(i as int),
            ),
        decreases bv.len() - i,
    {
        proof {
            assert(bv.skip(i as int).drop_first() =~= bv.skip(i as int + 1));
            assert(bv.skip(i as int)[0] == bv[i as int]);
        }
        let ghost prev = files.deep_view();
        let idx: usize = match &blocks[i].filename {
            Option::None => 0,
            Option::Some(f) => match find_file(files, f) {
                Option::Some(j) => j,
                Option::None => {
                    push_file(files, FileContent::new(f));
                    files.len() - 1
                },
            },
        };
        let ghost mid = files.deep_view();
        let mut nl = clone_lines(&files[idx].lines);
        append_lines(&mut nl, &blocks[i].lines);
        push_line(&mut nl, Vec::new());
        let nf = FileContent { name: clone_bytes(&files[idx].name), lines: nl };
        proof {
            assert(nf@.lines =~= mid[idx as int].lines + bv[i as int].lines + seq![
                Seq::<u8>::empty(),
            ]);
        }
        set_file(files, idx, nf);
        proof {
            match bv[i as int].filename {
                Option::None => {
                    assert(files.deep_view() =~= spec_route_step(prev, bv[i as int]));
                },
                Option::Some(f) => {
                    match spec_file_index(prev, f) {
                        Option::Some(_) => {
                            assert(files.deep_view() =~= spec_route_step(prev, bv[i as int]));
                        },
                        Option::None => {
                            // a fresh file was pushed and then filled in place
                            assert(mid =~= prev.push(
                                FileContentView { name: f, lines: Seq::empty() },
                            ));
                            assert(nf@.lines =~= bv[i as int].lines + seq![Seq::<u8>::empty()]);
                            assert(files.deep_view() =~= spec_route_step(prev, bv[i as int]));
                        },
                    }
                },
            }
        }
        i = i + 1;
    }
    proof {
        assert(bv.skip(bv.len() as int) =~= Seq::<BlockView>::empty());
    }
}

// ---------------------------------------------------------------------------
// Notebook container output
// ---------------------------------------------------------------------------
/// One source line as it appears in a notebook cell: backslashes and quotes
/// escaped, tabs widened to four spaces.
pub open spec fn spec_json_escape(l: Seq<u8>) -> Seq<u8> {
    spec_replace_all(
        spec_replace_all(spec_replace_all(l, seq![92u8], seq![92u8, 92u8]), seq![34u8], seq![92u8, 34u8]),
        seq![9u8],
        seq![32u8, 32u8, 32u8, 32u8],
    )
}

/// Escapes one line for inclusion in a notebook cell.
pub fn json_escape(line: &Vec<u8>) -> (r: Vec<u8>)
    ensures
        r@ == spec_json_escape(line@),
{
    let p1: Vec<u8> = vec![92u8];
    let r1: Vec<u8> = vec![92u8, 92u8];
    let a = replace_all(line, &p1, &r1);
    let p2: Vec<u8> = vec![34u8];
    let r2: Vec<u8> = vec![92u8, 34u8];
    let b = replace_all(&a, &p2, &r2);
    let p3: Vec<u8> = vec![9u8];
    let r3: Vec<u8> = vec![32u8, 32u8, 32u8, 32u8];
    let c = replace_all(&b, &p3, &r3);
    proof {
        assert(p1@ =~= seq![92u8]);
        assert(r1@ =~= seq![92u8, 92u8]);
        assert(p2@ =~= seq![34u8]);
        assert(r2@ =~= seq![92u8, 34u8]);
        assert(p3@ =~= seq![9u8]);
        assert(r3@ =~= seq![32u8, 32u8, 32u8, 32u8]);
    }
    c
}

/// A cell source line: indentation, opening quote, the escaped text, the
/// line-continuation marker and closing quote, and a comma after every line
/// but the cell's last.
pub open spec fn spec_src_line(l: Seq<u8>, last: bool) -> Seq<u8> {
    seq![32u8, 32u8, 32u8, 32u8, 34u8] + spec_json_escape(l) + (if last {
        seq![92u8, 110u8, 34u8]
    } else {
        seq![92u8, 110u8, 34u8, 44u8]
    })
}

/// The source lines of one cell.
pub open spec fn spec_cell_sources(lines: Seq<Seq<u8>>) -> Seq<Seq<u8>> {
    Seq::new(lines.len(), |k: int| spec_src_line(lines[k], k == lines.len() - 1))
}

/// A line with every line-continuation marker removed.
pub open spec fn spec_strip_cont(s: Seq<u8>) -> Seq<u8> {
    spec_replace_all(s, seq![92u8, 110u8], Seq::empty())
}

/// One whole notebook cell: the fixed opening lines, the sources, the last
/// line emitted so far stripped of its continuation marker, and the fixed
/// closing lines.
pub open spec fn spec_cell(lines: Seq<Seq<u8>>) -> Seq<Seq<u8>> {
    let base = spec_notebook_cell_head() + spec_cell_sources(lines);
    base.update(base.len() - 1, spec_strip_cont(base.last())) + spec_notebook_cell_tail()
}

/// The cells of all blocks, in order.
pub open spec fn spec_cells(blocks: Seq<BlockView>) -> Seq<Seq<u8>>
    decreases blocks.len(),
{
    if blocks.len() == 0 {
        Seq::empty()
    } else {
        spec_cell(blocks[0].lines) + spec_cells(blocks.drop_first())
    }
}

/// The bytes of the line that opens the cell list.
pub open spec fn spec_cells_open() -> Seq<u8> {
    seq![32u8, 34u8, 99u8, 101u8, 108u8, 108u8, 115u8, 34u8, 58u8, 32u8, 91u8]
}

/// The whole notebook: the container opening, the cells, the last emitted
/// line replaced by the bare cell-list closing, and the fixed metadata.
pub open spec fn spec_notebook(blocks: Seq<BlockView>) -> Seq<Seq<u8>> {
    let body = seq![seq![123u8], spec_cells_open()] + spec_cells(blocks);
    body.update(body.len() - 1, seq![32u8, 32u8, 125u8]) + spec_notebook_trailer()
}

/// Serializes the blocks into a notebook container, one code cell per
/// block, with the fixed scripting-language kernel metadata.
pub fn build_jupyter_notebook(blocks: &Vec<SrcBlock>) -> (r: Vec<Vec<u8>>)
    ensures
        r.deep_view() == spec_notebook(blocks.deep_view()),
{
    let ghost bv = blocks.deep_view();
    let mut out: Vec<Vec<u8>> = Vec::new();
    push_line(&mut out, vec![123u8]);
    push_line(&mut out, vec![32u8, 34u8, 99u8, 101u8, 108u8, 108u8, 115u8, 34u8, 58u8, 32u8, 91u8]);
    let ghost prefix2: Seq<Seq<u8>> = seq![seq![123u8], spec_cells_open()];
    proof {
        assert(out.deep_view() =~~= prefix2);
        assert(out.deep_view().take(2) =~= prefix2);
        assert(out.deep_view().skip(2) =~= Seq::<Seq<u8>>::empty());
        assert(bv.skip(0) =~= bv);
        assert(Seq::<Seq<u8>>::empty() + spec_cells(bv) =~= spec_cells(bv));
    }
    let mut i: usize = 0;
    while i < blocks.len()
        invariant
            i <= bv.len(),
            bv == blocks.deep_view(),
            out.deep_view().len() >= 2,
            out.deep_view().take(2) == prefix2,
            prefix2 == seq![seq![123u8], spec_cells_open()],
            spec_cells(bv) == out.deep_view().skip(2) + spec_cells(bv.skip(i as int)),
        decreases bv.len() - i,
    {
        proof {
            assert(bv.skip(i as int).drop_first() =~= bv.skip(i as int + 1));
            assert(bv.skip(i as int)[0] == bv[i as int]);
        }
        let ghost start = out.deep_view();
        let ghost ldv = bv[i as int].lines;
        let head = notebook_cell_head();
        append_lines(&mut out, &head);
        let ghost base = out.deep_view();
        let lines = &blocks[i].lines;
        proof {
            assert(lines.deep_view() == ldv);
            assert(base + spec_cell_sources(ldv).take(0) =~= base);
        }
        let mut k: usize = 0;
        while k < lines.len()
            invariant
                k <= ldv.len(),
                lines.deep_view() == ldv,
                ldv.len() == lines@.len(),
                out.deep_view() == base + spec_cell_sources(ldv).take(k as int),
            decreases ldv.len() - k,
        {
            let esc = json_escape(&lines[k]);
            let mut ln: Vec<u8> = vec![32u8, 32u8, 32u8, 32u8, 34u8];
            append_bytes(&mut ln, &esc);
            if k + 1 == lines.len() {
                let sfx: Vec<u8> = vec![92u8, 110u8, 34u8];
                append_bytes(&mut ln, &sfx);
            } else {
                let sfx: Vec<u8> = vec![92u8, 110u8, 34u8, 44u8];
                append_bytes(&mut ln, &sfx);
            }
            proof {
                assert(lines.deep_view()[k as int] == lines@[k as int]@);
                assert(ln@ =~= spec_src_line(ldv[k as int], k as int == ldv.len() - 1));
            }
            let ghost before = out.deep_view();
            push_line(&mut out, ln);
            proof {
                assert(spec_cell_sources(ldv).take(k as int + 1) =~= spec_cell_sources(ldv).take(
                    k as int,
                ).push(spec_src_line(ldv[k as int], k as int == ldv.len() - 1)));
                assert(out.deep_view() =~= base + spec_cell_sources(ldv).take(k as int + 1));
            }
            k = k + 1;
        }
        proof {
            assert(spec_cell_sources(ldv).take(ldv.len() as int) =~= spec_cell_sources(ldv));
            assert(out.deep_view() == base + spec_cell_sources(ldv));
        }
        // strip the continuation marker from the cell's last emitted line
        let ghost cellbase = spec_notebook_cell_head() + spec_cell_sources(ldv);
        proof {
            assert(out.deep_view() =~= start + cellbase);
            assert(out.deep_view().len() == start.len() + cellbase.len());
            assert(cellbase.len() >= 6);
        }
        let last_idx = out.len() - 1;
        let pat: Vec<u8> = vec![92u8, 110u8];
        let empty_repl: Vec<u8> = Vec::new();
        proof {
            assert(out.deep_view()[last_idx as int] == out@[last_idx as int]@);
            assert(out.deep_view()[last_idx as int] == cellbase.last());
        }
        let stripped = replace_all(&out[last_idx], &pat, &empty_repl);
        proof {
            assert(stripped@ == spec_strip_cont(cellbase.last()));
        }
        set_line(&mut out, last_idx, stripped);
        proof {
            assert(out.deep_view() =~= start + cellbase.update(
                cellbase.len() - 1,
                spec_strip_cont(cellbase.last()),
            ));
        }
        let tail = notebook_cell_tail();
        append_lines(&mut out, &tail);
        proof {
            assert(out.deep_view() =~= start + spec_cell(ldv));
            assert(out.deep_view().take(2) =~= start.take(2));
            assert(out.deep_view().skip(2) =~= start.skip(2) + spec_cell(ldv));
            assert(start.skip(2) + (spec_cell(ldv) + spec_cells(bv.skip(i as int + 1))) =~= out.deep_view().skip(2) + spec_cells(bv.skip(i as int + 1)));
        }
        i = i + 1;
    }
    proof {
        assert(bv.skip(bv.len() as int) =~= Seq::<BlockView>::empty());
        assert(spec_cells(bv) + Seq::<Seq<u8>>::empty() =~= spec_cells(bv));
        assert(out.deep_view() =~= out.deep_view().take(2) + out.deep_view().skip(2));
        assert(out.deep_view() =~= seq![seq![123u8], spec_cells_open()] + spec_cells(bv));
    }
    let ghost body = seq![seq![123u8], spec_cells_open()] + spec_cells(bv);
    let li = out.len() - 1;
    set_line(&mut out, li, vec![32u8, 32u8, 125u8]);
    proof {
        assert(out.deep_view() =~= body.update(body.len() - 1, seq![32u8, 32u8, 125u8]));
    }
    let trailer = notebook_trailer();
    append_lines(&mut out, &trailer);
    proof {
        assert(out.deep_view() =~= spec_notebook(bv));
    }
    out
}

} // verus!
