//! The exporter: a parsed document (its blocks and declared language
//! mappings) together with the operations on it — selecting and ordering
//! blocks, planning tangle output, dispatching an export request, and the
//! substitution pass over generated LaTeX source.

use vstd::prelude::*;

use crate::block::{
    clone_blocks, clone_bytes, push_file, BlockView, FileContent, FileContentView, LangMapping,
    LangMappingView, SrcBlock,
};
use crate::error::ErrorKind;
use crate::lit::{
    lit_begin_minted_open, lit_begin_word, lit_close_brace, lit_dot, lit_end_minted, lit_end_word,
    lit_jupyter, lit_pdf, lit_pdf_minted, lit_pdf_pandoc, lit_usepackage, lit_usepackage_minted,
    lit_verbatim, spec_lit_begin_minted_open, spec_lit_begin_word, spec_lit_close_brace,
    spec_lit_dot, spec_lit_end_minted, spec_lit_end_word, spec_lit_jupyter, spec_lit_pdf,
    spec_lit_pdf_dash, spec_lit_pdf_minted, spec_lit_pdf_pandoc, spec_lit_usepackage,
    spec_lit_usepackage_minted, spec_lit_verbatim,
};
use crate::parser::opt_bytes_view;
use crate::resolver::{select_blocks_in, spec_select};
use crate::router::{
    build_jupyter_notebook, cp_src_to_files, filter_blocks, output_file_name_for,
    single_file_lines, spec_filter_blocks, spec_notebook, spec_output_file_name, spec_route,
    spec_single_file,
};
use crate::text::{
    append_bytes, ascii_lowercase, bytes_eq, contains_sub, push_line, spec_ascii_lower,
    spec_contains, spec_trim, starts_with, trim,
};

verus! {

/// The mathematical value of an exporter.
#[verifier::ext_equal]
pub ghost struct ExporterView {
    pub input_path: Seq<u8>,
    pub src_blocks: Seq<BlockView>,
    pub langs: Seq<LangMappingView>,
}

/// A parsed document ready for export: the path it was read from, the code
/// blocks it declares, and its custom language-to-suffix mappings.
pub struct Exporter {
    pub input_path: Vec<u8>,
    pub src_blocks: Vec<SrcBlock>,
    pub langs: Vec<LangMapping>,
}

impl View for Exporter {
    type V = ExporterView;

    open spec fn view(&self) -> ExporterView {
        ExporterView {
            input_path: self.input_path@,
            src_blocks: self.src_blocks.deep_view(),
            langs: self.langs.deep_view(),
        }
    }
}

/// The typesetting backend a weave request selects.
#[derive(Clone, Copy, Debug, PartialEq, Eq)]
pub enum PdfOpt {
    Emacs,
    EmacsMinted,
    Pandoc,
}

/// The mathematical value of an export decision.
pub ghost enum ExportActionView {
    Weave(PdfOpt),
    Persist(Seq<FileContentView>),
}

/// What an export request asks the caller to carry out: run a typesetting
/// backend over the document, or persist the planned output files.
pub enum ExportAction {
    Weave(PdfOpt),
    Persist(Vec<FileContent>),
}

impl View for ExportAction {
    type V = ExportActionView;

    open spec fn view(&self) -> ExportActionView {
        match self {
            ExportAction::Weave(o) => ExportActionView::Weave(*o),
            ExportAction::Persist(files) => ExportActionView::Persist(files.deep_view()),
        }
    }
}

// ---------------------------------------------------------------------------
// Tangle planning
// ---------------------------------------------------------------------------
/// The output files that are persisted: those that accumulated at least one
/// line, in their given order.
pub open spec fn spec_persistable(files: Seq<FileContentView>) -> Seq<FileContentView>
    decreases files.len(),
{
    if files.len() == 0 {
        Seq::empty()
    } else if files[0].lines.len() > 0 {
        seq![files[0]] + spec_persistable(files.drop_first())
    } else {
        spec_persistable(files.drop_first())
    }
}

/// The candidate blocks of a tangle: every block for the copy-through
/// target, else the language-filtered ones.
pub open spec fn spec_target_blocks(ex: ExporterView, target: Seq<u8>) -> Seq<BlockView> {
    if target == spec_lit_dot() {
        ex.src_blocks
    } else {
        spec_filter_blocks(ex.src_blocks, target)
    }
}

/// The whole tangle plan: the default output name comes from the explicit
/// override or the target's suffix; the candidates are filtered, then, if a
/// block was selected, reduced and ordered by the resolver; the ordered
/// blocks land in one file, in one file per destination, or in a notebook;
/// only files with at least one line are persisted.
pub open spec fn spec_tangle(
    ex: ExporterView,
    target: Seq<u8>,
    selected: Option<Seq<u8>>,
    out_name: Option<Seq<u8>>,
) -> Result<Seq<FileContentView>, ErrorKind> {
    let generic = match out_name {
        Option::Some(n) => n,
        Option::None => spec_output_file_name(ex.input_path, target, ex.langs),
    };
    let t0 = spec_target_blocks(ex, target);
    let sel = match selected {
        Option::Some(name) => spec_select(ex.src_blocks, t0, name),
        Option::None => Result::Ok(t0),
    };
    match sel {
        Result::Err(e) => Result::Err(e),
        Result::Ok(targets) => {
            let files = if target == spec_lit_jupyter() {
                seq![
                    FileContentView { name: generic, lines: Seq::empty() },
                    FileContentView { name: generic, lines: spec_notebook(targets) },
                ]
            } else if target == spec_lit_dot() {
                spec_route(seq![FileContentView { name: generic, lines: Seq::empty() }], targets)
            } else {
                seq![FileContentView { name: generic, lines: spec_single_file(targets) }]
            };
            Result::Ok(spec_persistable(files))
        },
    }
}

/// Keeps the output files that accumulated at least one line.
pub fn filter_persistable(files: Vec<FileContent>) -> (r: Vec<FileContent>)
    ensures
        r.deep_view() == spec_persistable(files.deep_view()),
{
    let ghost fv = files.deep_view();
    let mut r: Vec<FileContent> = Vec::new();
    let mut i: usize = 0;
    proof {
        assert(fv.skip(0) =~= fv);
        assert(Seq::<FileContentView>::empty() + spec_persistable(fv) =~= spec_persistable(fv));
    }
    while i < files.len()
        invariant
            i <= fv.len(),
            fv == files.deep_view(),
            spec_persistable(fv) == r.deep_view() + spec_persistable(fv.skip(i as int)),
        decreases fv.len() - i,
    {
        proof {
            assert(fv.skip(i as int).drop_first() =~= fv.skip(i as int + 1));
            assert(fv.skip(i as int)[0] == fv[i as int]);
        }
        if files[i].lines.len() > 0 {
            let ghost old_r = r.deep_view();
            push_file(&mut r, files[i].duplicate());
            proof {
                assert(old_r + (seq![fv[i as int]] + spec_persistable(fv.skip(i as int + 1))) =~= r.deep_view()
                    + spec_persistable(fv.skip(i as int + 1)));
            }
        }
        i = i + 1;
    }
    proof {
        assert(fv.skip(fv.len() as int) =~= Seq::<FileContentView>::empty());
        assert(r.deep_view() + Seq::<FileContentView>::empty() =~= r.deep_view());
    }
    r
}

// ---------------------------------------------------------------------------
// Export dispatch
// ---------------------------------------------------------------------------
/// The formats the dispatcher accepts: anything, except that an unknown
/// format in the reserved weave namespace has no meaning.
pub open spec fn spec_known_format(format: Seq<u8>) -> bool {
    let lf = spec_ascii_lower(format);
    spec_lit_pdf_dash().is_prefix_of(lf) ==> (lf == spec_lit_pdf_minted() || lf
        == spec_lit_pdf_pandoc())
}

/// What an export request decides: the three weave formats pick a
/// typesetting backend; every other format is a tangle target.
pub open spec fn spec_export(
    ex: ExporterView,
    format: Seq<u8>,
    selected: Option<Seq<u8>>,
    out_name: Option<Seq<u8>>,
) -> Result<ExportActionView, ErrorKind> {
    let lf = spec_ascii_lower(format);
    if lf == spec_lit_pdf() {
        Result::Ok(ExportActionView::Weave(PdfOpt::Emacs))
    } else if lf == spec_lit_pdf_minted() {
        Result::Ok(ExportActionView::Weave(PdfOpt::EmacsMinted))
    } else if lf == spec_lit_pdf_pandoc() {
        Result::Ok(ExportActionView::Weave(PdfOpt::Pandoc))
    } else {
        match spec_tangle(ex, lf, selected, out_name) {
            Result::Ok(fs) => Result::Ok(ExportActionView::Persist(fs)),
            Result::Err(e) => Result::Err(e),
        }
    }
}

// ---------------------------------------------------------------------------
// The LaTeX substitution pass
// ---------------------------------------------------------------------------
/// Whether the line at `i` opens a verbatim environment that stands for the
/// next unconsumed code block: the block must have lines, its first line
/// must reappear trimmed on the following source line, and it must carry a
/// language tag.
pub open spec fn mint_begin_cond(
    blocks: Seq<BlockView>,
    lines: Seq<Seq<u8>>,
    i: int,
    src_idx: int,
) -> bool {
    &&& src_idx < blocks.len()
    &&& spec_contains(lines[i], spec_lit_begin_word())
    &&& spec_contains(lines[i], spec_lit_verbatim())
    &&& blocks[src_idx].lines.len() > 0
    &&& i + 1 < lines.len()
    &&& spec_contains(spec_trim(lines[i + 1]), spec_trim(blocks[src_idx].lines[0]))
    &&& blocks[src_idx].lang.len() > 0
}

/// Whether the line at `i` closes the verbatim environment currently being
/// rewritten.
pub open spec fn mint_end_cond(lines: Seq<Seq<u8>>, i: int, in_block: bool) -> bool {
    spec_contains(lines[i], spec_lit_end_word()) && spec_contains(lines[i], spec_lit_verbatim())
        && in_block
}

/// The opening line of a highlighted environment for a language.
pub open spec fn spec_minted_open(lang: Seq<u8>) -> Seq<u8> {
    spec_lit_begin_minted_open() + lang + spec_lit_close_brace()
}

/// The substitution pass from line `i` on: the first package import seen
/// also brings in the highlighting package; each verbatim environment that
/// matches the next code block is rewritten into a highlighted one; every
/// other line passes through unchanged.
pub open spec fn spec_mint_from(
    blocks: Seq<BlockView>,
    lines: Seq<Seq<u8>>,
    i: int,
    src_idx: int,
    in_block: bool,
    pkg: bool,
) -> Seq<Seq<u8>>
    decreases lines.len() - i,
    when 0 <= i && 0 <= src_idx
{
    if i >= lines.len() {
        Seq::empty()
    } else {
        let line = lines[i];
        let add_pkg = !pkg && spec_lit_usepackage().is_prefix_of(line);
        let pkg2 = pkg || add_pkg;
        let head: Seq<Seq<u8>> = if add_pkg {
            seq![spec_lit_usepackage_minted()]
        } else {
            Seq::empty()
        };
        if mint_begin_cond(blocks, lines, i, src_idx) {
            head + seq![spec_minted_open(blocks[src_idx].lang)] + spec_mint_from(
                blocks,
                lines,
                i + 1,
                src_idx + 1,
                true,
                pkg2,
            )
        } else if mint_end_cond(lines, i, in_block) {
            head + seq![spec_lit_end_minted()] + spec_mint_from(
                blocks,
                lines,
                i + 1,
                src_idx,
                false,
                pkg2,
            )
        } else {
            head + seq![line] + spec_mint_from(blocks, lines, i + 1, src_idx, in_block, pkg2)
        }
    }
}

impl Exporter {
    /// Rewrites generated LaTeX source: verbatim environments that stand
    /// for the document's tagged code blocks become syntax-highlighted
    /// environments, and the highlighting package is imported once.
    pub fn mint_tex(&self, lines: &Vec<Vec<u8>>) -> (r: Vec<Vec<u8>>)
        ensures
            r.deep_view() == spec_mint_from(self@.src_blocks, lines.deep_view(), 0, 0, false, false),
    {
        let ghost bv = self@.src_blocks;
        let ghost lv = lines.deep_view();
        let begin_word = lit_begin_word();
        let end_word = lit_end_word();
        let verbatim = lit_verbatim();
        let usepackage = lit_usepackage();
        let mut out: Vec<Vec<u8>> = Vec::new();
        let mut i: usize = 0;
        let mut src_idx: usize = 0;
        let mut src_block = false;
        let mut pkg = false;
        proof {
            assert(Seq::<Seq<u8>>::empty() + spec_mint_from(bv, lv, 0, 0, false, false)
                =~= spec_mint_from(bv, lv, 0, 0, false, false));
        }
        while i < lines.len()
            invariant
                i <= lv.len(),
                src_idx <= bv.len(),
                bv == self@.src_blocks,
                lv == lines.deep_view(),
                begin_word@ == spec_lit_begin_word(),
                end_word@ == spec_lit_end_word(),
                verbatim@ == spec_lit_verbatim(),
                usepackage@ == spec_lit_usepackage(),
                spec_mint_from(bv, lv, 0, 0, false, false) == out.deep_view() + spec_mint_from(
                    bv,
                    lv,
                    i as int,
                    src_idx as int,
                    src_block,
                    pkg,
                ),
            decreases lv.len() - i,
        {
            proof {
                assert(lv[i as int] == lines@[i as int]@);
                if i + 1 < lines@.len() {
                    assert(lv[i as int + 1] == lines@[i as int + 1]@);
                }
                if (src_idx as int) < bv.len() {
                    assert(bv[src_idx as int] == self.src_blocks@[src_idx as int]@);
                    if bv[src_idx as int].lines.len() > 0 {
                        assert(bv[src_idx as int].lines[0]
                            == self.src_blocks@[src_idx as int].lines@[0]@);
                    }
                }
            }
            let ghost state0 = (i as int, src_idx as int, src_block, pkg);
            let ghost out0 = out.deep_view();
            let line = &lines[i];
            let add_pkg = !pkg && starts_with(line, &usepackage);
            if add_pkg {
                push_line(&mut out, lit_usepackage_minted());
                pkg = true;
            }
            let mut is_begin = false;
            if src_idx < self.src_blocks.len() {
                if contains_sub(line, &begin_word) && contains_sub(line, &verbatim)
                    && self.src_blocks[src_idx].lines.len() > 0 && i + 1 < lines.len() {
                    let lt = trim(&lines[i + 1]);
                    let bt = trim(&self.src_blocks[src_idx].lines[0]);
                    if contains_sub(&lt, &bt) && self.src_blocks[src_idx].lang.len() > 0 {
                        is_begin = true;
                    }
                }
            }
            if is_begin {
                let mut ml = lit_begin_minted_open();
                append_bytes(&mut ml, &self.src_blocks[src_idx].lang);
                let cb = lit_close_brace();
                append_bytes(&mut ml, &cb);
                proof {
                    assert(ml@ =~= spec_minted_open(bv[src_idx as int].lang));
                }
                push_line(&mut out, ml);
                src_block = true;
                src_idx = src_idx + 1;
            } else if contains_sub(line, &end_word) && contains_sub(line, &verbatim) && src_block {
                src_block = false;
                push_line(&mut out, lit_end_minted());
            } else {
                push_line(&mut out, crate::block::clone_bytes(line));
            }
            proof {
                let head: Seq<Seq<u8>> = if add_pkg {
                    seq![spec_lit_usepackage_minted()]
                } else {
                    Seq::empty()
                };
                if is_begin {
                    assert(out.deep_view() =~= out0 + (head + seq![
                        spec_minted_open(bv[state0.1].lang),
                    ]));
                    assert(out0 + (head + seq![spec_minted_open(bv[state0.1].lang)]
                        + spec_mint_from(bv, lv, state0.0 + 1, state0.1 + 1, true, pkg)) =~= out.deep_view()
                        + spec_mint_from(bv, lv, state0.0 + 1, state0.1 + 1, true, pkg));
                } else if mint_end_cond(lv, state0.0, state0.2) {
                    assert(out.deep_view() =~= out0 + (head + seq![spec_lit_end_minted()]));
                    assert(out0 + (head + seq![spec_lit_end_minted()] + spec_mint_from(
                        bv,
                        lv,
                        state0.0 + 1,
                        state0.1,
                        false,
                        pkg,
                    )) =~= out.deep_view() + spec_mint_from(bv, lv, state0.0 + 1, state0.1, false, pkg));
                } else {
                    assert(out.deep_view() =~= out0 + (head + seq![lv[state0.0]]));
                    assert(out0 + (head + seq![lv[state0.0]] + spec_mint_from(
                        bv,
                        lv,
                        state0.0 + 1,
                        state0.1,
                        state0.2,
                        pkg,
                    )) =~= out.deep_view() + spec_mint_from(bv, lv, state0.0 + 1, state0.1, state0.2, pkg));
                }
            }
            i = i + 1;
        }
        proof {
            assert(spec_mint_from(bv, lv, lv.len() as int, src_idx as int, src_block, pkg)
                =~= Seq::<Seq<u8>>::empty());
            assert(out.deep_view() + Seq::<Seq<u8>>::empty() =~= out.deep_view());
        }
        out
    }

    /// An exporter over an already-parsed document.
    pub fn new(input_path: Vec<u8>, src_blocks: Vec<SrcBlock>, langs: Vec<LangMapping>) -> (r:
        Exporter)
        ensures
            r@ == (ExporterView {
                input_path: input_path@,
                src_blocks: src_blocks.deep_view(),
                langs: langs.deep_view(),
            }),
    {
        Exporter { input_path, src_blocks, langs }
    }

    /// The document's code blocks.
    pub fn src_blocks(&self) -> (r: &Vec<SrcBlock>)
        ensures
            r.deep_view() == self@.src_blocks,
    {
        &self.src_blocks
    }

    /// The document's declared language mappings.
    pub fn langs(&self) -> (r: &Vec<LangMapping>)
        ensures
            r.deep_view() == self@.langs,
    {
        &self.langs
    }

    /// The default output file name for a target, derived from the
    /// document's path and its declared mappings.
    pub fn output_file_name(&self, target: &Vec<u8>) -> (r: Vec<u8>)
        ensures
            r@ == spec_output_file_name(self@.input_path, target@, self@.langs),
    {
        output_file_name_for(&self.input_path, target, &self.langs)
    }

    /// Filters and orders the candidates for a selected block name, against
    /// the document's full block list.
    pub fn select_blocks(&self, name: &Vec<u8>, target_blocks: &mut Vec<SrcBlock>) -> (r: Result<
        (),
        ErrorKind,
    >)
        ensures
            match r {
                Result::Ok(()) => spec_select(
                    self@.src_blocks,
                    old(target_blocks).deep_view(),
                    name@,
                ) == Result::Ok::<Seq<BlockView>, ErrorKind>(final(target_blocks).deep_view()),
                Result::Err(e) => spec_select(
                    self@.src_blocks,
                    old(target_blocks).deep_view(),
                    name@,
                ) == Result::Err::<Seq<BlockView>, ErrorKind>(e),
            },
    {
        select_blocks_in(&self.src_blocks, name, target_blocks)
    }

    /// Plans a tangle: which files, with which lines, are to be persisted.
    #[verifier::rlimit(60)]
    pub fn tangle(
        &self,
        target: &Vec<u8>,
        selected: &Option<Vec<u8>>,
        out_filename: &Option<Vec<u8>>,
    ) -> (r: Result<Vec<FileContent>, ErrorKind>)
        ensures
            match r {
                Result::Ok(files) => spec_tangle(
                    self@,
                    target@,
                    opt_bytes_view(*selected),
                    opt_bytes_view(*out_filename),
                ) == Result::Ok::<Seq<FileContentView>, ErrorKind>(files.deep_view()),
                Result::Err(e) => spec_tangle(
                    self@,
                    target@,
                    opt_bytes_view(*selected),
                    opt_bytes_view(*out_filename),
                ) == Result::Err::<Seq<FileContentView>, ErrorKind>(e),
            },
    {
        let generic: Vec<u8> = match out_filename {
            Option::Some(s) => clone_bytes(s),
            Option::None => output_file_name_for(&self.input_path, target, &self.langs),
        };
        let dot = lit_dot();
        let jup = lit_jupyter();
        let is_dot = bytes_eq(target, &dot);
        let mut target_blocks: Vec<SrcBlock> = if is_dot {
            clone_blocks(&self.src_blocks)
        } else {
            filter_blocks(&self.src_blocks, target)
        };
        match selected {
            Option::Some(name) => {
                match self.select_blocks(name, &mut target_blocks) {
                    Result::Ok(()) => {
                    },
                    Result::Err(e) => {
                        return Result::Err(e);
                    },
                }
            },
            Option::None => {
            },
        }
        let ghost targets = target_blocks.deep_view();
        let files: Vec<FileContent> = if bytes_eq(target, &jup) {
            let nb = build_jupyter_notebook(&target_blocks);
            let ghost gname = generic@;
            let mut files: Vec<FileContent> = Vec::new();
            push_file(&mut files, FileContent::new(&generic));
            push_file(&mut files, FileContent { name: generic, lines: nb });
            proof {
                assert(files.deep_view() =~= seq![
                    FileContentView { name: gname, lines: Seq::<Seq<u8>>::empty() },
                    FileContentView { name: gname, lines: spec_notebook(targets) },
                ]);
            }
            files
        } else if is_dot {
            let mut files: Vec<FileContent> = Vec::new();
            push_file(&mut files, FileContent::new(&generic));
            proof {
                assert(files.deep_view() =~= seq![
                    FileContentView { name: generic@, lines: Seq::<Seq<u8>>::empty() },
                ]);
            }
            cp_src_to_files(&target_blocks, &mut files);
            files
        } else {
            let sf = single_file_lines(&target_blocks);
            let ghost gname = generic@;
            let mut files: Vec<FileContent> = Vec::new();
            push_file(&mut files, FileContent { name: generic, lines: sf });
            proof {
                assert(files.deep_view() =~= seq![
                    FileContentView { name: gname, lines: spec_single_file(targets) },
                ]);
            }
            files
        };
        Result::Ok(filter_persistable(files))
    }

    /// Decides an export request: a weave format names its backend, every
    /// other format is tangled into an output plan.
    pub fn export(
        &self,
        format: &Vec<u8>,
        block: &Option<Vec<u8>>,
        out_filename: &Option<Vec<u8>>,
    ) -> (r: Result<ExportAction, ErrorKind>)
        requires
            spec_known_format(format@),
        ensures
            match r {
                Result::Ok(a) => spec_export(
                    self@,
                    format@,
                    opt_bytes_view(*block),
                    opt_bytes_view(*out_filename),
                ) == Result::Ok::<ExportActionView, ErrorKind>(a@),
                Result::Err(e) => spec_export(
                    self@,
                    format@,
                    opt_bytes_view(*block),
                    opt_bytes_view(*out_filename),
                ) == Result::Err::<ExportActionView, ErrorKind>(e),
            },
    {
        let lf = ascii_lowercase(format);
        if bytes_eq(&lf, &lit_pdf()) {
            Result::Ok(ExportAction::Weave(PdfOpt::Emacs))
        } else if bytes_eq(&lf, &lit_pdf_minted()) {
            Result::Ok(ExportAction::Weave(PdfOpt::EmacsMinted))
        } else if bytes_eq(&lf, &lit_pdf_pandoc()) {
            Result::Ok(ExportAction::Weave(PdfOpt::Pandoc))
        } else {
            match self.tangle(&lf, block, out_filename) {
                Result::Ok(files) => Result::Ok(ExportAction::Persist(files)),
                Result::Err(e) => Result::Err(e),
            }
        }
    }
}

} // verus!
