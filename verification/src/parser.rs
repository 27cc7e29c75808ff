//! The block parser: a single pass over a document's lines recovers the
//! code blocks and declared language mappings. Nested document inclusion is
//! handled as a session: the parser runs until it needs another file's
//! lines, hands the request to the caller, and resumes when they arrive, so
//! that the parser itself never touches a file system.

use vstd::prelude::*;

use crate::block::{
    clone_bytes, clone_lines, clone_opt_bytes, push_block, push_mapping, BlockView, LangMapping,
    LangMappingView, SrcBlock,
};
use crate::error::ErrorKind;
use crate::lit::{
    lit_begin_src, lit_deps_marker, lit_end_src, lit_fail, lit_include_marker, lit_name_marker,
    lit_no, lit_src, lit_src_lang_marker, lit_tangle_key, lit_yes, spec_lit_begin_src,
    spec_lit_deps_marker, spec_lit_end_src, spec_lit_fail, spec_lit_include_marker,
    spec_lit_name_marker, spec_lit_no, spec_lit_src, spec_lit_src_lang_marker,
    spec_lit_tangle_key, spec_lit_yes,
};
use crate::text::{
    bytes_eq, push_line, replace_all, split_tokens, spec_replace_all, spec_strip_newlines,
    spec_tokens, spec_trim, starts_with, strip_newlines, trim,
};

verus! {

// ---------------------------------------------------------------------------
// Directive parsing
// ---------------------------------------------------------------------------
/// A metadata token that is a two-character switch and carries no content.
pub open spec fn is_flag_token(t: Seq<u8>) -> bool {
    t.len() == 2 && t[0] == 45
}

/// The metadata tokens with the two-character switches dropped.
pub open spec fn spec_filter_flags(toks: Seq<Seq<u8>>) -> Seq<Seq<u8>>
    decreases toks.len(),
{
    if toks.len() == 0 {
        Seq::empty()
    } else if is_flag_token(toks[0]) {
        spec_filter_flags(toks.drop_first())
    } else {
        seq![toks[0]] + spec_filter_flags(toks.drop_first())
    }
}

/// The destination declared by the first applicable `:tangle` key at or
/// after position `i`: the key's value names a file unless it is one of the
/// yes/no sentinels; a key with no value after it is skipped.
pub open spec fn spec_tangle_dest(rem: Seq<Seq<u8>>, i: int) -> Option<Seq<u8>>
    decreases rem.len() - i,
    when 0 <= i
{
    if i >= rem.len() {
        Option::None
    } else if rem[i] == spec_lit_tangle_key() && i + 1 < rem.len() {
        if rem[i + 1] == spec_lit_no() || rem[i + 1] == spec_lit_yes() {
            Option::None
        } else {
            Option::Some(rem[i + 1])
        }
    } else {
        spec_tangle_dest(rem, i + 1)
    }
}

/// What a block-open line declares: the tokens after the marker, minus the
/// switches, give first the language tag, and a `:tangle` key among them an
/// output destination.
pub open spec fn spec_parse_begin_src(line: Seq<u8>) -> (Option<Seq<u8>>, Option<Seq<u8>>) {
    let toks = spec_tokens(line);
    let rest = if toks.len() == 0 {
        toks
    } else {
        toks.drop_first()
    };
    let rem = spec_filter_flags(rest);
    (
        if rem.len() > 0 {
            Option::Some(rem[0])
        } else {
            Option::None
        },
        spec_tangle_dest(rem, 0),
    )
}

/// Parses a block-open line into its language tag and destination override.
pub fn parse_begin_src(line: &Vec<u8>) -> (r: (Option<Vec<u8>>, Option<Vec<u8>>))
    ensures
        match r.0 {
            Option::Some(l) => spec_parse_begin_src(line@).0 == Option::Some(l@),
            Option::None => spec_parse_begin_src(line@).0 == Option::None::<Seq<u8>>,
        },
        match r.1 {
            Option::Some(d) => spec_parse_begin_src(line@).1 == Option::Some(d@),
            Option::None => spec_parse_begin_src(line@).1 == Option::None::<Seq<u8>>,
        },
{
    let toks = split_tokens(line);
    let ghost tv = toks.deep_view();
    let ghost rest = if tv.len() == 0 {
        tv
    } else {
        tv.drop_first()
    };
    let mut rem: Vec<Vec<u8>> = Vec::new();
    let mut i: usize = 1;
    proof {
        if tv.len() > 0 {
            assert(rest =~= tv.skip(1));
        }
        assert(Seq::<Seq<u8>>::empty() + spec_filter_flags(rest) =~= spec_filter_flags(rest));
        if tv.len() == 0 {
            assert(spec_filter_flags(rest) =~= Seq::<Seq<u8>>::empty());
        }
    }
    while i < toks.len()
        invariant
            1 <= i,
            i <= tv.len() || (tv.len() == 0 && i == 1),
            tv == toks.deep_view(),
            rest == (if tv.len() == 0 {
                tv
            } else {
                tv.drop_first()
            }),
            tv.len() > 0 ==> rest =~= tv.skip(1),
            spec_filter_flags(rest) == rem.deep_view() + (if i <= tv.len() {
                spec_filter_flags(tv.skip(i as int))
            } else {
                Seq::<Seq<u8>>::empty()
            }),
        decreases tv.len() - i,
    {
        proof {
            assert(tv.skip(i as int).drop_first() =~= tv.skip(i as int + 1));
            assert(tv.skip(i as int)[0] == tv[i as int]);
            assert(tv[i as int] == toks@[i as int]@);
        }
        let t = &toks[i];
        let flag = t.len() == 2 && t[0] == 45;
        if !flag {
            let ghost old_rem = rem.deep_view();
            push_line(&mut rem, clone_bytes(t));
            proof {
                assert(old_rem + (seq![tv[i as int]] + spec_filter_flags(tv.skip(i as int + 1)))
                    =~= rem.deep_view() + spec_filter_flags(tv.skip(i as int + 1)));
            }
        }
        i = i + 1;
    }
    proof {
        if tv.len() > 0 {
            assert(tv.skip(tv.len() as int) =~= Seq::<Seq<u8>>::empty());
            assert(spec_filter_flags(tv.skip(tv.len() as int)) =~= Seq::<Seq<u8>>::empty());
        }
        assert(rem.deep_view() + Seq::<Seq<u8>>::empty() =~= rem.deep_view());
        assert(rem.deep_view() == spec_filter_flags(rest));
    }
    let ghost remv = rem.deep_view();
    let lang: Option<Vec<u8>> = if rem.len() > 0 {
        proof {
            assert(remv[0] == rem@[0]@);
        }
        Option::Some(clone_bytes(&rem[0]))
    } else {
        Option::None
    };
    let key = lit_tangle_key();
    let no = lit_no();
    let yes = lit_yes();
    let mut dest: Option<Vec<u8>> = Option::None;
    let mut k: usize = 0;
    let mut stopped = false;
    while k < rem.len() && !stopped
        invariant
            k <= remv.len(),
            remv == rem.deep_view(),
            key@ == spec_lit_tangle_key(),
            no@ == spec_lit_no(),
            yes@ == spec_lit_yes(),
            if stopped {
                match dest {
                    Option::Some(d) => spec_tangle_dest(remv, 0) == Option::Some(d@),
                    Option::None => spec_tangle_dest(remv, 0) == Option::None::<Seq<u8>>,
                }
            } else {
                dest is None && spec_tangle_dest(remv, 0) == spec_tangle_dest(remv, k as int)
            },
        decreases remv.len() - k,
    {
        proof {
            assert(remv[k as int] == rem@[k as int]@);
            if k + 1 < rem@.len() {
                assert(remv[k as int + 1] == rem@[k as int + 1]@);
            }
        }
        if bytes_eq(&rem[k], &key) && k + 1 < rem.len() {
            if !(bytes_eq(&rem[k + 1], &no) || bytes_eq(&rem[k + 1], &yes)) {
                dest = Option::Some(clone_bytes(&rem[k + 1]));
            }
            stopped = true;
        }
        k = k + 1;
    }
    proof {
        if !stopped {
            assert(spec_tangle_dest(remv, k as int) == Option::None::<Seq<u8>>);
        }
    }
    (lang, dest)
}

/// The declared block name: the trimmed remainder after the name marker.
pub open spec fn spec_parse_name(line: Seq<u8>) -> Seq<u8> {
    spec_trim(spec_replace_all(line, spec_lit_name_marker(), Seq::empty()))
}

/// Parses a name-declaration line.
pub fn parse_name(line: &Vec<u8>) -> (r: Vec<u8>)
    ensures
        r@ == spec_parse_name(line@),
{
    let marker = lit_name_marker();
    let empty: Vec<u8> = Vec::new();
    let cleaned = replace_all(line, &marker, &empty);
    trim(&cleaned)
}

/// The declared dependency names: the whitespace-separated tokens of the
/// trimmed remainder after the dependency marker, empty tokens dropped.
pub open spec fn spec_parse_deps(line: Seq<u8>) -> Seq<Seq<u8>> {
    spec_tokens(spec_trim(spec_replace_all(line, spec_lit_deps_marker(), Seq::empty())))
}

/// Parses a dependency-declaration line.
pub fn parse_deps(line: &Vec<u8>) -> (r: Vec<Vec<u8>>)
    ensures
        r.deep_view() == spec_parse_deps(line@),
{
    let marker = lit_deps_marker();
    let empty: Vec<u8> = Vec::new();
    let cleaned = replace_all(line, &marker, &empty);
    let trimmed = trim(&cleaned);
    split_tokens(&trimmed)
}

/// The declared language mapping: the first token after the marker is the
/// language, the second the suffix, each replaced by a sentinel when
/// missing.
pub open spec fn spec_parse_src_lang(line: Seq<u8>) -> LangMappingView {
    let toks = spec_tokens(spec_trim(spec_replace_all(line, spec_lit_src_lang_marker(), Seq::empty())));
    LangMappingView {
        lang: if toks.len() > 0 {
            toks[0]
        } else {
            spec_lit_fail()
        },
        suffix: if toks.len() > 1 {
            toks[1]
        } else {
            spec_lit_fail()
        },
    }
}

/// Parses a language-mapping declaration line.
pub fn parse_src_lang(line: &Vec<u8>) -> (r: LangMapping)
    ensures
        r@ == spec_parse_src_lang(line@),
{
    let marker = lit_src_lang_marker();
    let empty: Vec<u8> = Vec::new();
    let cleaned = replace_all(line, &marker, &empty);
    let trimmed = trim(&cleaned);
    let toks = split_tokens(&trimmed);
    let lang: Vec<u8> = if toks.len() > 0 {
        proof {
            assert(toks.deep_view()[0] == toks@[0]@);
        }
        clone_bytes(&toks[0])
    } else {
        lit_fail()
    };
    let suffix: Vec<u8> = if toks.len() > 1 {
        proof {
            assert(toks.deep_view()[1] == toks@[1]@);
        }
        clone_bytes(&toks[1])
    } else {
        lit_fail()
    };
    LangMapping { lang, suffix }
}

// ---------------------------------------------------------------------------
// The per-line parse step
// ---------------------------------------------------------------------------
/// The mathematical value of an optional byte vector.
pub open spec fn opt_bytes_view(o: Option<Vec<u8>>) -> Option<Seq<u8>> {
    match o {
        Option::Some(v) => Option::Some(v@),
        Option::None => Option::None,
    }
}

/// The mathematical value of the open-block accumulator.
#[verifier::ext_equal]
pub ghost struct PendingView {
    pub lang: Option<Seq<u8>>,
    pub name: Option<Seq<u8>>,
    pub dest: Option<Seq<u8>>,
    pub lines: Seq<Seq<u8>>,
    pub deps: Seq<Seq<u8>>,
    pub in_src: bool,
}

/// The transient state threaded through a single scanning pass: the current
/// open block's language, pending name, destination override, accumulated
/// lines and dependencies, and whether the scan is inside an open block.
pub struct Pending {
    pub lang: Option<Vec<u8>>,
    pub name: Option<Vec<u8>>,
    pub dest: Option<Vec<u8>>,
    pub lines: Vec<Vec<u8>>,
    pub deps: Vec<Vec<u8>>,
    pub in_src: bool,
}

impl View for Pending {
    type V = PendingView;

    open spec fn view(&self) -> PendingView {
        PendingView {
            lang: opt_bytes_view(self.lang),
            name: opt_bytes_view(self.name),
            dest: opt_bytes_view(self.dest),
            lines: self.lines.deep_view(),
            deps: self.deps.deep_view(),
            in_src: self.in_src,
        }
    }
}

/// The accumulator before any block has been opened, and right after each
/// block closes.
pub open spec fn spec_empty_pending() -> PendingView {
    PendingView {
        lang: Option::None,
        name: Option::None,
        dest: Option::None,
        lines: Seq::empty(),
        deps: Seq::empty(),
        in_src: false,
    }
}

impl Pending {
    /// A fresh accumulator.
    pub fn empty() -> (r: Pending)
        ensures
            r@ == spec_empty_pending(),
    {
        let r = Pending {
            lang: Option::None,
            name: Option::None,
            dest: Option::None,
            lines: Vec::new(),
            deps: Vec::new(),
            in_src: false,
        };
        proof {
            assert(r@ =~= spec_empty_pending());
        }
        r
    }
}

/// The name or dependency state after an inclusion directive: cleared,
/// while the open-block language, lines and open flag stay.
pub open spec fn spec_cleared_include(p: PendingView) -> PendingView {
    PendingView { name: Option::None, dest: Option::None, deps: Seq::empty(), ..p }
}

/// An optional name defaulted to the empty one.
pub open spec fn spec_or_empty(o: Option<Seq<u8>>) -> Seq<u8> {
    match o {
        Option::Some(s) => s,
        Option::None => Seq::empty(),
    }
}

/// The mathematical value of a verbatim-import request.
#[verifier::ext_equal]
pub ghost struct VerbView {
    pub path: Seq<u8>,
    pub lang: Seq<u8>,
    pub name: Seq<u8>,
    pub deps: Seq<Seq<u8>>,
    pub dest: Option<Seq<u8>>,
}

/// What one line does to the scan: update the accumulator, commit a block,
/// declare a language mapping, or request another file.
pub ghost enum LineEffect {
    Update(PendingView),
    Commit(PendingView, BlockView),
    Mapping(PendingView, LangMappingView),
    IncludeDoc(PendingView, Seq<u8>),
    IncludeVerb(PendingView, VerbView),
}

/// The effect of one document line on the accumulator, dispatching on the
/// directive the line begins with; an ordinary line is captured only while
/// a block is open.
pub open spec fn spec_line_step(p: PendingView, raw: Seq<u8>) -> LineEffect {
    let line = spec_strip_newlines(raw);
    if spec_lit_begin_src().is_prefix_of(line) {
        let pb = spec_parse_begin_src(line);
        LineEffect::Update(PendingView { lang: pb.0, dest: pb.1, in_src: true, ..p })
    } else if spec_lit_end_src().is_prefix_of(line) {
        LineEffect::Commit(
            spec_empty_pending(),
            BlockView {
                name: spec_or_empty(p.name),
                lang: spec_or_empty(p.lang),
                lines: p.lines,
                deps: p.deps,
                filename: p.dest,
            },
        )
    } else if spec_lit_name_marker().is_prefix_of(line) {
        LineEffect::Update(PendingView { name: Option::Some(spec_parse_name(line)), ..p })
    } else if spec_lit_deps_marker().is_prefix_of(line) {
        LineEffect::Update(PendingView { deps: spec_parse_deps(line), ..p })
    } else if spec_lit_src_lang_marker().is_prefix_of(line) {
        LineEffect::Mapping(p, spec_parse_src_lang(line))
    } else if spec_lit_include_marker().is_prefix_of(line) {
        let toks = spec_tokens(line);
        let cleared = spec_cleared_include(p);
        if toks.len() == 2 {
            LineEffect::IncludeDoc(cleared, toks[1])
        } else if toks.len() >= 4 && toks[2] == spec_lit_src() {
            let dest = if toks.len() >= 6 && toks[4] == spec_lit_tangle_key() {
                Option::Some(toks[5])
            } else {
                Option::None
            };
            LineEffect::IncludeVerb(
                cleared,
                VerbView {
                    path: toks[1],
                    lang: toks[3],
                    name: spec_or_empty(p.name),
                    deps: p.deps,
                    dest,
                },
            )
        } else {
            LineEffect::Update(cleared)
        }
    } else if p.in_src {
        LineEffect::Update(PendingView { lines: p.lines.push(line), ..p })
    } else {
        LineEffect::Update(p)
    }
}

/// A verbatim-import request: the named file's raw lines become one block
/// with this language, name, dependency set and destination.
pub struct VerbRequest {
    pub path: Vec<u8>,
    pub lang: Vec<u8>,
    pub name: Vec<u8>,
    pub deps: Vec<Vec<u8>>,
    pub dest: Option<Vec<u8>>,
}

impl View for VerbRequest {
    type V = VerbView;

    open spec fn view(&self) -> VerbView {
        VerbView {
            path: self.path@,
            lang: self.lang@,
            name: self.name@,
            deps: self.deps.deep_view(),
            dest: opt_bytes_view(self.dest),
        }
    }
}

/// What one processed line asks the session to do.
pub enum LineOutcome {
    Nothing,
    Block(SrcBlock),
    DeclMapping(LangMapping),
    IncludeDoc(Vec<u8>),
    IncludeVerb(VerbRequest),
}

/// Processes one document line against the accumulator, exactly as
/// `spec_line_step` describes.
pub fn step_line(p: Pending, raw: &Vec<u8>) -> (r: (Pending, LineOutcome))
    ensures
        ({
            let eff = spec_line_step(p@, raw@);
            match r.1 {
                LineOutcome::Nothing => eff == LineEffect::Update(r.0@),
                LineOutcome::Block(b) => eff == LineEffect::Commit(r.0@, b@),
                LineOutcome::DeclMapping(m) => eff == LineEffect::Mapping(r.0@, m@),
                LineOutcome::IncludeDoc(path) => eff == LineEffect::IncludeDoc(r.0@, path@),
                LineOutcome::IncludeVerb(v) => eff == LineEffect::IncludeVerb(r.0@, v@),
            }
        }),
{
    let ghost p0 = p@;
    let mut p = p;
    let line = strip_newlines(raw);
    if starts_with(&line, &lit_begin_src()) {
        let pb = parse_begin_src(&line);
        p.lang = pb.0;
        p.dest = pb.1;
        p.in_src = true;
        proof {
            let sb = spec_parse_begin_src(spec_strip_newlines(raw@));
            assert(p@ =~= PendingView { lang: sb.0, dest: sb.1, in_src: true, ..p0 });
        }
        (p, LineOutcome::Nothing)
    } else if starts_with(&line, &lit_end_src()) {
        let Pending { lang, name, dest, lines, deps, in_src: _ } = p;
        let b = SrcBlock {
            name: match name {
                Option::Some(n) => n,
                Option::None => Vec::new(),
            },
            lang: match lang {
                Option::Some(l) => l,
                Option::None => Vec::new(),
            },
            lines,
            dependencies: deps,
            filename: dest,
        };
        proof {
            assert(b@ =~= BlockView {
                name: spec_or_empty(p0.name),
                lang: spec_or_empty(p0.lang),
                lines: p0.lines,
                deps: p0.deps,
                filename: p0.dest,
            });
        }
        (Pending::empty(), LineOutcome::Block(b))
    } else if starts_with(&line, &lit_name_marker()) {
        p.name = Option::Some(parse_name(&line));
        proof {
            assert(p@ =~= PendingView {
                name: Option::Some(spec_parse_name(spec_strip_newlines(raw@))),
                ..p0
            });
        }
        (p, LineOutcome::Nothing)
    } else if starts_with(&line, &lit_deps_marker()) {
        p.deps = parse_deps(&line);
        proof {
            assert(p@ =~= PendingView { deps: spec_parse_deps(spec_strip_newlines(raw@)), ..p0 });
        }
        (p, LineOutcome::Nothing)
    } else if starts_with(&line, &lit_src_lang_marker()) {
        let m = parse_src_lang(&line);
        (p, LineOutcome::DeclMapping(m))
    } else if starts_with(&line, &lit_include_marker()) {
        let toks = split_tokens(&line);
        let ghost tv = toks.deep_view();
        let Pending { lang, name, dest: _, lines, deps, in_src } = p;
        let cleared = Pending {
            lang,
            name: Option::None,
            dest: Option::None,
            lines,
            deps: Vec::new(),
            in_src,
        };
        proof {
            assert(cleared@ =~= spec_cleared_include(p0));
            if tv.len() >= 4 {
                assert(tv[2] == toks@[2]@);
            }
        }
        if toks.len() == 2 {
            proof {
                assert(tv[1] == toks@[1]@);
            }
            let path = clone_bytes(&toks[1]);
            (cleared, LineOutcome::IncludeDoc(path))
        } else if toks.len() >= 4 && bytes_eq(&toks[2], &lit_src()) {
            proof {
                assert(tv[1] == toks@[1]@);
                assert(tv[2] == toks@[2]@);
                assert(tv[3] == toks@[3]@);
            }
            let dest: Option<Vec<u8>> = if toks.len() >= 6 && bytes_eq(&toks[4], &lit_tangle_key())
            {
                proof {
                    assert(tv[4] == toks@[4]@);
                    assert(tv[5] == toks@[5]@);
                }
                Option::Some(clone_bytes(&toks[5]))
            } else {
                proof {
                    if toks@.len() >= 6 {
                        assert(tv[4] == toks@[4]@);
                    }
                }
                Option::None
            };
            let v = VerbRequest {
                path: clone_bytes(&toks[1]),
                lang: clone_bytes(&toks[3]),
                name: match name {
                    Option::Some(n) => n,
                    Option::None => Vec::new(),
                },
                deps,
                dest,
            };
            proof {
                assert(v@ =~= VerbView {
                    path: tv[1],
                    lang: tv[3],
                    name: spec_or_empty(p0.name),
                    deps: p0.deps,
                    dest: if tv.len() >= 6 && tv[4] == spec_lit_tangle_key() {
                        Option::Some(tv[5])
                    } else {
                        Option::None
                    },
                });
            }
            (cleared, LineOutcome::IncludeVerb(v))
        } else {
            (cleared, LineOutcome::Nothing)
        }
    } else if p.in_src {
        let ghost lv = line@;
        push_line(&mut p.lines, line);
        proof {
            assert(p@ =~= PendingView { lines: p0.lines.push(lv), ..p0 });
        }
        (p, LineOutcome::Nothing)
    } else {
        (p, LineOutcome::Nothing)
    }
}

// ---------------------------------------------------------------------------
// The parse session
// ---------------------------------------------------------------------------
/// The mathematical value of one document on the inclusion stack.
#[verifier::ext_equal]
pub ghost struct FrameView {
    pub path: Seq<u8>,
    pub lines: Seq<Seq<u8>>,
    pub pos: int,
    pub pending: PendingView,
}

/// One document on the inclusion stack: its path, its lines, the next line
/// to process, and the scan state inside it.
pub struct Frame {
    pub path: Vec<u8>,
    pub lines: Vec<Vec<u8>>,
    pub pos: usize,
    pub pending: Pending,
}

impl View for Frame {
    type V = FrameView;

    open spec fn view(&self) -> FrameView {
        FrameView {
            path: self.path@,
            lines: self.lines.deep_view(),
            pos: self.pos as int,
            pending: self.pending@,
        }
    }
}

impl DeepView for Frame {
    type V = FrameView;

    open spec fn deep_view(&self) -> FrameView {
        self.view()
    }
}

/// Whether some document on the stack has this path.
pub open spec fn spec_frames_contain(frames: Seq<FrameView>, path: Seq<u8>) -> bool {
    exists|k: int| 0 <= k < frames.len() && frames[k].path == path
}

/// The mathematical value of the outstanding request, if any.
pub ghost enum WaitingView {
    Idle,
    Document(Seq<u8>),
    Verbatim(VerbView),
}

/// The outstanding request of the session: none, a document to be read and
/// parsed, or a file to be imported verbatim.
pub enum Waiting {
    Idle,
    Document { path: Vec<u8> },
    Verbatim { req: VerbRequest },
}

impl View for Waiting {
    type V = WaitingView;

    open spec fn view(&self) -> WaitingView {
        match self {
            Waiting::Idle => WaitingView::Idle,
            Waiting::Document { path } => WaitingView::Document(path@),
            Waiting::Verbatim { req } => WaitingView::Verbatim(req@),
        }
    }
}

/// What an advance of the session produced: the end of all input, or a
/// request for another file's lines.
pub enum ParseStep {
    Done,
    NeedDocument { path: Vec<u8> },
    NeedVerbatim { path: Vec<u8> },
}

/// The mathematical value of a step result.
pub ghost enum StepView {
    Done,
    NeedDoc(Seq<u8>),
    NeedVerb(VerbView),
}

/// The state an advance stops in.
#[verifier::ext_equal]
pub ghost struct AdvanceView {
    pub frames: Seq<FrameView>,
    pub blocks: Seq<BlockView>,
    pub langs: Seq<LangMappingView>,
    pub step: StepView,
}

/// The lines the top document still has to offer.
pub open spec fn top_remaining(frames: Seq<FrameView>) -> int {
    if frames.len() > 0 {
        frames.last().lines.len() - frames.last().pos
    } else {
        0
    }
}

/// Runs the scan from the given state until all documents are exhausted or
/// a line requests another file: lines are processed one by one on the top
/// document of the stack, exhausted documents are popped with whatever
/// half-open block they held silently dropped, and a document inclusion
/// whose path is already on the stack fails at once.
pub open spec fn spec_advance(
    frames: Seq<FrameView>,
    blocks: Seq<BlockView>,
    langs: Seq<LangMappingView>,
) -> Result<AdvanceView, ErrorKind>
    decreases frames.len(), top_remaining(frames),
{
    if frames.len() == 0 {
        Result::Ok(AdvanceView { frames, blocks, langs, step: StepView::Done })
    } else {
        let f = frames.last();
        if f.pos < 0 || f.pos >= f.lines.len() {
            spec_advance(frames.drop_last(), blocks, langs)
        } else {
            let eff = spec_line_step(f.pending, f.lines[f.pos]);
            let p2 = match eff {
                LineEffect::Update(p) => p,
                LineEffect::Commit(p, _) => p,
                LineEffect::Mapping(p, _) => p,
                LineEffect::IncludeDoc(p, _) => p,
                LineEffect::IncludeVerb(p, _) => p,
            };
            let f2 = FrameView { pos: f.pos + 1, pending: p2, ..f };
            let frames2 = frames.update(frames.len() - 1, f2);
            proof {
                assert(frames2.last() == f2);
                assert(frames2.len() == frames.len());
            }
            match eff {
                LineEffect::Update(_) => spec_advance(frames2, blocks, langs),
                LineEffect::Commit(_, b) => spec_advance(frames2, blocks.push(b), langs),
                LineEffect::Mapping(_, m) => spec_advance(frames2, blocks, langs.push(m)),
                LineEffect::IncludeDoc(_, path) => {
                    if spec_frames_contain(frames2, path) {
                        Result::Err(ErrorKind::RecursiveInclusion)
                    } else {
                        Result::Ok(
                            AdvanceView { frames: frames2, blocks, langs, step: StepView::NeedDoc(path) },
                        )
                    }
                },
                LineEffect::IncludeVerb(_, v) => Result::Ok(
                    AdvanceView { frames: frames2, blocks, langs, step: StepView::NeedVerb(v) },
                ),
            }
        }
    }
}

/// Appends one frame to the stack, relating the two-level view to a
/// one-element extension.
pub fn push_frame(r: &mut Vec<Frame>, x: Frame)
    ensures
        final(r).deep_view() == old(r).deep_view().push(x@),
        final(r)@.len() == old(r)@.len() + 1,
{
    r.push(x);
    proof {
        assert(final(r).deep_view() =~~= old(r).deep_view().push(x@));
    }
}

/// Tests whether some document on the stack has this path.
pub fn frames_contain(frames: &Vec<Frame>, path: &Vec<u8>) -> (r: bool)
    ensures
        r <==> spec_frames_contain(frames.deep_view(), path@),
{
    let mut k: usize = 0;
    while k < frames.len()
        invariant
            k <= frames@.len(),
            forall|j: int| 0 <= j < k ==> frames.deep_view()[j].path != path@,
        decreases frames@.len() - k,
    {
        proof {
            assert(frames.deep_view()[k as int] == frames@[k as int]@);
        }
        if bytes_eq(&frames[k].path, path) {
            return true;
        }
        k = k + 1;
    }
    false
}

/// A parse in progress: the stack of documents being scanned, the blocks
/// and mappings recovered so far, and the outstanding file request if the
/// scan is suspended on an inclusion.
pub struct ParseSession {
    pub frames: Vec<Frame>,
    pub blocks: Vec<SrcBlock>,
    pub langs: Vec<LangMapping>,
    pub waiting: Waiting,
}

impl ParseSession {
    /// Starts a session on the root document's lines.
    pub fn new(path: Vec<u8>, lines: Vec<Vec<u8>>) -> (s: ParseSession)
        ensures
            s.frames.deep_view() == seq![
                FrameView {
                    path: path@,
                    lines: lines.deep_view(),
                    pos: 0,
                    pending: spec_empty_pending(),
                },
            ],
            s.blocks.deep_view() == Seq::<BlockView>::empty(),
            s.langs.deep_view() == Seq::<LangMappingView>::empty(),
            s.waiting@ is Idle,
    {
        let mut frames: Vec<Frame> = Vec::new();
        push_frame(&mut frames, Frame { path, lines, pos: 0, pending: Pending::empty() });
        let s = ParseSession { frames, blocks: Vec::new(), langs: Vec::new(), waiting: Waiting::Idle };
        proof {
            assert(s.frames.deep_view() =~= seq![
                FrameView {
                    path: path@,
                    lines: lines.deep_view(),
                    pos: 0,
                    pending: spec_empty_pending(),
                },
            ]);
            assert(s.blocks.deep_view() =~= Seq::<BlockView>::empty());
            assert(s.langs.deep_view() =~= Seq::<LangMappingView>::empty());
        }
        s
    }

    /// Runs the scan until the input is exhausted or another file is
    /// needed, exactly as `spec_advance` describes from the current state.
    pub fn advance(&mut self) -> (r: Result<ParseStep, ErrorKind>)
        requires
            old(self).waiting@ is Idle,
        ensures
            ({
                let a = spec_advance(
                    old(self).frames.deep_view(),
                    old(self).blocks.deep_view(),
                    old(self).langs.deep_view(),
                );
                match r {
                    Result::Err(e) => a == Result::Err::<AdvanceView, ErrorKind>(e),
                    Result::Ok(step) => match a {
                        Result::Err(_) => false,
                        Result::Ok(av) => {
                            &&& final(self).frames.deep_view() == av.frames
                            &&& final(self).blocks.deep_view() == av.blocks
                            &&& final(self).langs.deep_view() == av.langs
                            &&& match step {
                                ParseStep::Done => av.step is Done && final(self).waiting@ is Idle,
                                ParseStep::NeedDocument { path } => av.step == StepView::NeedDoc(
                                    path@,
                                ) && final(self).waiting@ == WaitingView::Document(path@),
                                ParseStep::NeedVerbatim { path } => match av.step {
                                    StepView::NeedVerb(v) => path@ == v.path
                                        && final(self).waiting@ == WaitingView::Verbatim(v),
                                    _ => false,
                                },
                            }
                        },
                    },
                }
            }),
    {
        loop
            invariant
                self.waiting@ is Idle,
                spec_advance(
                    old(self).frames.deep_view(),
                    old(self).blocks.deep_view(),
                    old(self).langs.deep_view(),
                ) == spec_advance(
                    self.frames.deep_view(),
                    self.blocks.deep_view(),
                    self.langs.deep_view(),
                ),
            decreases self.frames@.len(), top_remaining(self.frames.deep_view()),
        {
            let ghost fcur = self.frames.deep_view();
            let flen = self.frames.len();
            if flen == 0 {
                return Result::Ok(ParseStep::Done);
            }
            proof {
                assert(fcur[flen - 1] == self.frames@[flen - 1]@);
                assert(fcur.last() == self.frames@[flen - 1]@);
            }
            if self.frames[flen - 1].pos >= self.frames[flen - 1].lines.len() {
                self.frames.pop();
                proof {
                    assert(self.frames.deep_view() =~= fcur.drop_last());
                }
            } else {
                let f = self.frames.pop().unwrap();
                proof {
                    assert(f@ == fcur.last());
                    assert(self.frames.deep_view() =~= fcur.drop_last());
                }
                let Frame { path, lines, pos, pending } = f;
                proof {
                    assert(lines.deep_view()[pos as int] == lines@[pos as int]@);
                }
                let (p2, outcome) = step_line(pending, &lines[pos]);
                let ghost eff = spec_line_step(fcur.last().pending, fcur.last().lines[fcur.last().pos]);
                let f2 = Frame { path, lines, pos: pos + 1, pending: p2 };
                let ghost f2v = f2@;
                push_frame(&mut self.frames, f2);
                proof {
                    assert(self.frames.deep_view() =~= fcur.update(fcur.len() - 1, f2v));
                    assert(self.frames.deep_view().last() == f2v);
                }
                match outcome {
                    LineOutcome::Nothing => {
                    },
                    LineOutcome::Block(b) => {
                        push_block(&mut self.blocks, b);
                    },
                    LineOutcome::DeclMapping(m) => {
                        push_mapping(&mut self.langs, m);
                    },
                    LineOutcome::IncludeDoc(ipath) => {
                        if frames_contain(&self.frames, &ipath) {
                            return Result::Err(ErrorKind::RecursiveInclusion);
                        }
                        let path_out = clone_bytes(&ipath);
                        self.waiting = Waiting::Document { path: ipath };
                        return Result::Ok(ParseStep::NeedDocument { path: path_out });
                    },
                    LineOutcome::IncludeVerb(v) => {
                        let path_out = clone_bytes(&v.path);
                        self.waiting = Waiting::Verbatim { req: v };
                        return Result::Ok(ParseStep::NeedVerbatim { path: path_out });
                    },
                }
            }
        }
    }

    /// Resumes after a document request: the read document's lines become a
    /// new frame on top of the stack.
    pub fn supply_document(&mut self, lines: Vec<Vec<u8>>)
        requires
            old(self).waiting@ is Document,
        ensures
            ({
                match old(self).waiting@ {
                    WaitingView::Document(p) => final(self).frames.deep_view()
                        == old(self).frames.deep_view().push(
                        FrameView {
                            path: p,
                            lines: lines.deep_view(),
                            pos: 0,
                            pending: spec_empty_pending(),
                        },
                    ),
                    _ => false,
                }
            }),
            final(self).blocks.deep_view() == old(self).blocks.deep_view(),
            final(self).langs.deep_view() == old(self).langs.deep_view(),
            final(self).waiting@ is Idle,
    {
        let path: Vec<u8> = match &self.waiting {
            Waiting::Document { path } => clone_bytes(path),
            _ => vstd::pervasive::unreached(),
        };
        self.waiting = Waiting::Idle;
        push_frame(&mut self.frames, Frame { path, lines, pos: 0, pending: Pending::empty() });
    }

    /// Resumes after a verbatim request: the read file's lines become one
    /// block carrying the language, name, dependencies and destination the
    /// inclusion site declared.
    pub fn supply_verbatim(&mut self, lines: Vec<Vec<u8>>)
        requires
            old(self).waiting@ is Verbatim,
        ensures
            ({
                match old(self).waiting@ {
                    WaitingView::Verbatim(v) => final(self).blocks.deep_view()
                        == old(self).blocks.deep_view().push(
                        BlockView {
                            name: v.name,
                            lang: v.lang,
                            lines: lines.deep_view(),
                            deps: v.deps,
                            filename: v.dest,
                        },
                    ),
                    _ => false,
                }
            }),
            final(self).frames.deep_view() == old(self).frames.deep_view(),
            final(self).langs.deep_view() == old(self).langs.deep_view(),
            final(self).waiting@ is Idle,
    {
        let b: SrcBlock = match &self.waiting {
            Waiting::Verbatim { req } => SrcBlock {
                name: clone_bytes(&req.name),
                lang: clone_bytes(&req.lang),
                lines,
                dependencies: clone_lines(&req.deps),
                filename: clone_opt_bytes(&req.dest),
            },
            _ => vstd::pervasive::unreached(),
        };
        self.waiting = Waiting::Idle;
        push_block(&mut self.blocks, b);
    }

    /// Hands the recovered blocks and language mappings out.
    pub fn into_results(self) -> (r: (Vec<SrcBlock>, Vec<LangMapping>))
        ensures
            r.0.deep_view() == self.blocks.deep_view(),
            r.1.deep_view() == self.langs.deep_view(),
    {
        let ParseSession { frames: _, blocks, langs, waiting: _ } = self;
        (blocks, langs)
    }
}

} // verus!
