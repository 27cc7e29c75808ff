//! The data model: a code block recovered from a document, a declared
//! language-to-suffix mapping, and an output file being accumulated.

use vstd::prelude::*;

use crate::text::push_line;

verus! {

use vstd::pervasive::VecAdditionalExecFns;

/// The mathematical value of a code block.
#[verifier::ext_equal]
pub ghost struct BlockView {
    pub name: Seq<u8>,
    pub lang: Seq<u8>,
    pub lines: Seq<Seq<u8>>,
    pub deps: Seq<Seq<u8>>,
    pub filename: Option<Seq<u8>>,
}

/// A named, optionally language-tagged fragment of text. `name` and `lang`
/// may be empty; `dependencies` lists names of blocks that must be emitted
/// before this one when it is selected; `filename` is an explicit output
/// destination override.
pub struct SrcBlock {
    pub name: Vec<u8>,
    pub lang: Vec<u8>,
    pub lines: Vec<Vec<u8>>,
    pub dependencies: Vec<Vec<u8>>,
    pub filename: Option<Vec<u8>>,
}

impl View for SrcBlock {
    type V = BlockView;

    open spec fn view(&self) -> BlockView {
        BlockView {
            name: self.name@,
            lang: self.lang@,
            lines: self.lines.deep_view(),
            deps: self.dependencies.deep_view(),
            filename: match self.filename {
                Option::Some(f) => Option::Some(f@),
                Option::None => Option::None,
            },
        }
    }
}

impl DeepView for SrcBlock {
    type V = BlockView;

    open spec fn deep_view(&self) -> BlockView {
        self.view()
    }
}

/// The mathematical value of a language mapping.
#[verifier::ext_equal]
pub ghost struct LangMappingView {
    pub lang: Seq<u8>,
    pub suffix: Seq<u8>,
}

/// A declared custom mapping from a language tag to the file suffix its
/// default output file carries.
pub struct LangMapping {
    pub lang: Vec<u8>,
    pub suffix: Vec<u8>,
}

impl View for LangMapping {
    type V = LangMappingView;

    open spec fn view(&self) -> LangMappingView {
        LangMappingView { lang: self.lang@, suffix: self.suffix@ }
    }
}

impl DeepView for LangMapping {
    type V = LangMappingView;

    open spec fn deep_view(&self) -> LangMappingView {
        self.view()
    }
}

/// The mathematical value of an output file.
#[verifier::ext_equal]
pub ghost struct FileContentView {
    pub name: Seq<u8>,
    pub lines: Seq<Seq<u8>>,
}

/// An output file being accumulated: a destination path and the lines that
/// will be written there.
pub struct FileContent {
    pub name: Vec<u8>,
    pub lines: Vec<Vec<u8>>,
}

impl View for FileContent {
    type V = FileContentView;

    open spec fn view(&self) -> FileContentView {
        FileContentView { name: self.name@, lines: self.lines.deep_view() }
    }
}

impl DeepView for FileContent {
    type V = FileContentView;

    open spec fn deep_view(&self) -> FileContentView {
        self.view()
    }
}

impl FileContent {
    /// An output file for path `name` with no lines yet.
    pub fn new(name: &Vec<u8>) -> (r: FileContent)
        ensures
            r@.name == name@,
            r@.lines == Seq::<Seq<u8>>::empty(),
    {
        let r = FileContent { name: clone_bytes(name), lines: Vec::new() };
        proof {
            assert(r@.lines =~~= Seq::<Seq<u8>>::empty());
        }
        r
    }
}

/// Copies a byte vector; the copy has the very same view.
pub fn clone_bytes(v: &Vec<u8>) -> (r: Vec<u8>)
    ensures
        r@ == v@,
{
    let r = v.clone();
    proof {
        assert(r@ =~= v@);
    }
    r
}

/// Copies an optional byte vector; the copy has the very same view.
pub fn clone_opt_bytes(v: &Option<Vec<u8>>) -> (r: Option<Vec<u8>>)
    ensures
        match (v, &r) {
            (Option::Some(a), Option::Some(b)) => a@ == b@,
            (Option::None, Option::None) => true,
            _ => false,
        },
{
    match v {
        Option::Some(a) => Option::Some(clone_bytes(a)),
        Option::None => Option::None,
    }
}

/// Copies a vector of lines; the copy has the very same deep view.
pub fn clone_lines(v: &Vec<Vec<u8>>) -> (r: Vec<Vec<u8>>)
    ensures
        r.deep_view() == v.deep_view(),
{
    let mut r: Vec<Vec<u8>> = Vec::new();
    let mut i: usize = 0;
    while i < v.len()
        invariant
            i <= v@.len(),
            r.deep_view() == v.deep_view().take(i as int),
        decreases v@.len() - i,
    {
        push_line(&mut r, clone_bytes(&v[i]));
        proof {
            assert(v.deep_view().take(i as int).push(v@[i as int]@) =~~= v.deep_view().take(
                i as int + 1,
            ));
        }
        i = i + 1;
    }
    proof {
        assert(v.deep_view().take(v@.len() as int) =~= v.deep_view());
        assert(r.deep_view() =~~= Seq::<Seq<u8>>::empty() ==> true);
    }
    r
}

impl SrcBlock {
    /// Copies a block; the copy has the very same view.
    pub fn duplicate(&self) -> (r: SrcBlock)
        ensures
            r@ == self@,
    {
        SrcBlock {
            name: clone_bytes(&self.name),
            lang: clone_bytes(&self.lang),
            lines: clone_lines(&self.lines),
            dependencies: clone_lines(&self.dependencies),
            filename: clone_opt_bytes(&self.filename),
        }
    }
}

/// Copies a vector of blocks; the copy has the very same deep view.
pub fn clone_blocks(v: &Vec<SrcBlock>) -> (r: Vec<SrcBlock>)
    ensures
        r.deep_view() == v.deep_view(),
{
    let mut r: Vec<SrcBlock> = Vec::new();
    let mut i: usize = 0;
    while i < v.len()
        invariant
            i <= v@.len(),
            r.deep_view() == v.deep_view().take(i as int),
        decreases v@.len() - i,
    {
        proof {
            assert(v.deep_view()[i as int] == v@[i as int]@);
        }
        push_block(&mut r, v[i].duplicate());
        proof {
            assert(v.deep_view().take(i as int).push(v@[i as int]@) =~= v.deep_view().take(
                i as int + 1,
            ));
        }
        i = i + 1;
    }
    proof {
        assert(v.deep_view().take(v@.len() as int) =~= v.deep_view());
    }
    r
}

impl FileContent {
    /// Copies an output file; the copy has the very same view.
    pub fn duplicate(&self) -> (r: FileContent)
        ensures
            r@ == self@,
    {
        FileContent { name: clone_bytes(&self.name), lines: clone_lines(&self.lines) }
    }
}

/// Appends one block to a vector of blocks, relating the two-level view of
/// `Vec<SrcBlock>` to a one-element extension.
pub fn push_block(r: &mut Vec<SrcBlock>, x: SrcBlock)
    ensures
        final(r).deep_view() == old(r).deep_view().push(x@),
        final(r)@.len() == old(r)@.len() + 1,
{
    r.push(x);
    proof {
        assert(final(r).deep_view() =~~= old(r).deep_view().push(x@));
    }
}

/// Appends one output file to a vector of files, relating the two-level
/// view to a one-element extension.
pub fn push_file(r: &mut Vec<FileContent>, x: FileContent)
    ensures
        final(r).deep_view() == old(r).deep_view().push(x@),
        final(r)@.len() == old(r)@.len() + 1,
{
    r.push(x);
    proof {
        assert(final(r).deep_view() =~~= old(r).deep_view().push(x@));
    }
}

/// Replaces output file `i`, relating the two-level view to an update.
pub fn set_file(r: &mut Vec<FileContent>, i: usize, x: FileContent)
    requires
        i < old(r)@.len(),
    ensures
        final(r).deep_view() == old(r).deep_view().update(i as int, x@),
        final(r)@.len() == old(r)@.len(),
{
    r.set(i, x);
    proof {
        assert(final(r).deep_view() =~~= old(r).deep_view().update(i as int, x@));
    }
}

/// Appends one mapping to a vector of language mappings, relating the
/// two-level view to a one-element extension.
pub fn push_mapping(r: &mut Vec<LangMapping>, x: LangMapping)
    ensures
        final(r).deep_view() == old(r).deep_view().push(x@),
        final(r)@.len() == old(r)@.len() + 1,
{
    r.push(x);
    proof {
        assert(final(r).deep_view() =~~= old(r).deep_view().push(x@));
    }
}

} // verus!
