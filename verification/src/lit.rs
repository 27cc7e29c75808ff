//! The byte values of the fixed strings of the engine: directive markers,
//! well-known language tags, the suffix table, and the notebook boilerplate.
//! Each constant exists twice, as a specification sequence and as an
//! executable vector proved equal to it.

use vstd::prelude::*;

use crate::block::{push_mapping, LangMapping, LangMappingView};
use crate::text::push_line;

verus! {

/// The bytes of `"#+BEGIN_SRC"`.
pub open spec fn spec_lit_begin_src() -> Seq<u8> {
    seq![35u8, 43u8, 66u8, 69u8, 71u8, 73u8, 78u8, 95u8, 83u8, 82u8, 67u8]
}

/// The bytes of `"#+BEGIN_SRC"`.
pub fn lit_begin_src() -> (r: Vec<u8>)
    ensures
        r@ == spec_lit_begin_src(),
{
    vec![35u8, 43u8, 66u8, 69u8, 71u8, 73u8, 78u8, 95u8, 83u8, 82u8, 67u8]
}

/// The bytes of `"#+END_SRC"`.
pub open spec fn spec_lit_end_src() -> Seq<u8> {
    seq![35u8, 43u8, 69u8, 78u8, 68u8, 95u8, 83u8, 82u8, 67u8]
}

/// The bytes of `"#+END_SRC"`.
pub fn lit_end_src() -> (r: Vec<u8>)
    ensures
        r@ == spec_lit_end_src(),
{
    vec![35u8, 43u8, 69u8, 78u8, 68u8, 95u8, 83u8, 82u8, 67u8]
}

/// The bytes of `"#+NAME:"`.
pub open spec fn spec_lit_name_marker() -> Seq<u8> {
    seq![35u8, 43u8, 78u8, 65u8, 77u8, 69u8, 58u8]
}

/// The bytes of `"#+NAME:"`.
pub fn lit_name_marker() -> (r: Vec<u8>)
    ensures
        r@ == spec_lit_name_marker(),
{
    vec![35u8, 43u8, 78u8, 65u8, 77u8, 69u8, 58u8]
}

/// The bytes of `"#+DEPS:"`.
pub open spec fn spec_lit_deps_marker() -> Seq<u8> {
    seq![35u8, 43u8, 68u8, 69u8, 80u8, 83u8, 58u8]
}

/// The bytes of `"#+DEPS:"`.
pub fn lit_deps_marker() -> (r: Vec<u8>)
    ensures
        r@ == spec_lit_deps_marker(),
{
    vec![35u8, 43u8, 68u8, 69u8, 80u8, 83u8, 58u8]
}

/// The bytes of `"#+SRC_LANG:"`.
pub open spec fn spec_lit_src_lang_marker() -> Seq<u8> {
    seq![35u8, 43u8, 83u8, 82u8, 67u8, 95u8, 76u8, 65u8, 78u8, 71u8, 58u8]
}

/// The bytes of `"#+SRC_LANG:"`.
pub fn lit_src_lang_marker() -> (r: Vec<u8>)
    ensures
        r@ == spec_lit_src_lang_marker(),
{
    vec![35u8, 43u8, 83u8, 82u8, 67u8, 95u8, 76u8, 65u8, 78u8, 71u8, 58u8]
}

/// The bytes of `"#+INCLUDE:"`.
pub open spec fn spec_lit_include_marker() -> Seq<u8> {
    seq![35u8, 43u8, 73u8, 78u8, 67u8, 76u8, 85u8, 68u8, 69u8, 58u8]
}

/// The bytes of `"#+INCLUDE:"`.
pub fn lit_include_marker() -> (r: Vec<u8>)
    ensures
        r@ == spec_lit_include_marker(),
{
    vec![35u8, 43u8, 73u8, 78u8, 67u8, 76u8, 85u8, 68u8, 69u8, 58u8]
}

/// The bytes of `":tangle"`.
pub open spec fn spec_lit_tangle_key() -> Seq<u8> {
    seq![58u8, 116u8, 97u8, 110u8, 103u8, 108u8, 101u8]
}

/// The bytes of `":tangle"`.
pub fn lit_tangle_key() -> (r: Vec<u8>)
    ensures
        r@ == spec_lit_tangle_key(),
{
    vec![58u8, 116u8, 97u8, 110u8, 103u8, 108u8, 101u8]
}

/// The bytes of `"yes"`.
pub open spec fn spec_lit_yes() -> Seq<u8> {
    seq![121u8, 101u8, 115u8]
}

/// The bytes of `"yes"`.
pub fn lit_yes() -> (r: Vec<u8>)
    ensures
        r@ == spec_lit_yes(),
{
    vec![121u8, 101u8, 115u8]
}

/// The bytes of `"no"`.
pub open spec fn spec_lit_no() -> Seq<u8> {
    seq![110u8, 111u8]
}

/// The bytes of `"no"`.
pub fn lit_no() -> (r: Vec<u8>)
    ensures
        r@ == spec_lit_no(),
{
    vec![110u8, 111u8]
}

/// The bytes of `"src"`.
pub open spec fn spec_lit_src() -> Seq<u8> {
    seq![115u8, 114u8, 99u8]
}

/// The bytes of `"src"`.
pub fn lit_src() -> (r: Vec<u8>)
    ensures
        r@ == spec_lit_src(),
{
    vec![115u8, 114u8, 99u8]
}

/// The bytes of `"fail"`.
pub open spec fn spec_lit_fail() -> Seq<u8> {
    seq![102u8, 97u8, 105u8, 108u8]
}

/// The bytes of `"fail"`.
pub fn lit_fail() -> (r: Vec<u8>)
    ensures
        r@ == spec_lit_fail(),
{
    vec![102u8, 97u8, 105u8, 108u8]
}

/// The bytes of `"."`.
pub open spec fn spec_lit_dot() -> Seq<u8> {
    seq![46u8]
}

/// The bytes of `"."`.
pub fn lit_dot() -> (r: Vec<u8>)
    ensures
        r@ == spec_lit_dot(),
{
    vec![46u8]
}

/// The bytes of `"python"`.
pub open spec fn spec_lit_python() -> Seq<u8> {
    seq![112u8, 121u8, 116u8, 104u8, 111u8, 110u8]
}

/// The bytes of `"python"`.
pub fn lit_python() -> (r: Vec<u8>)
    ensures
        r@ == spec_lit_python(),
{
    vec![112u8, 121u8, 116u8, 104u8, 111u8, 110u8]
}

/// The bytes of `"jupyter"`.
pub open spec fn spec_lit_jupyter() -> Seq<u8> {
    seq![106u8, 117u8, 112u8, 121u8, 116u8, 101u8, 114u8]
}

/// The bytes of `"jupyter"`.
pub fn lit_jupyter() -> (r: Vec<u8>)
    ensures
        r@ == spec_lit_jupyter(),
{
    vec![106u8, 117u8, 112u8, 121u8, 116u8, 101u8, 114u8]
}

/// The bytes of `"latex"`.
pub open spec fn spec_lit_latex() -> Seq<u8> {
    seq![108u8, 97u8, 116u8, 101u8, 120u8]
}

/// The bytes of `"latex"`.
pub fn lit_latex() -> (r: Vec<u8>)
    ensures
        r@ == spec_lit_latex(),
{
    vec![108u8, 97u8, 116u8, 101u8, 120u8]
}

/// The bytes of `"pdf"`.
pub open spec fn spec_lit_pdf() -> Seq<u8> {
    seq![112u8, 100u8, 102u8]
}

/// The bytes of `"pdf"`.
pub fn lit_pdf() -> (r: Vec<u8>)
    ensures
        r@ == spec_lit_pdf(),
{
    vec![112u8, 100u8, 102u8]
}

/// The bytes of `"pdf-"`.
pub open spec fn spec_lit_pdf_dash() -> Seq<u8> {
    seq![112u8, 100u8, 102u8, 45u8]
}

/// The bytes of `"pdf-"`.
pub fn lit_pdf_dash() -> (r: Vec<u8>)
    ensures
        r@ == spec_lit_pdf_dash(),
{
    vec![112u8, 100u8, 102u8, 45u8]
}

/// The bytes of `"pdf-minted"`.
pub open spec fn spec_lit_pdf_minted() -> Seq<u8> {
    seq![112u8, 100u8, 102u8, 45u8, 109u8, 105u8, 110u8, 116u8, 101u8, 100u8]
}

/// The bytes of `"pdf-minted"`.
pub fn lit_pdf_minted() -> (r: Vec<u8>)
    ensures
        r@ == spec_lit_pdf_minted(),
{
    vec![112u8, 100u8, 102u8, 45u8, 109u8, 105u8, 110u8, 116u8, 101u8, 100u8]
}

/// The bytes of `"pdf-pandoc"`.
pub open spec fn spec_lit_pdf_pandoc() -> Seq<u8> {
    seq![112u8, 100u8, 102u8, 45u8, 112u8, 97u8, 110u8, 100u8, 111u8, 99u8]
}

/// The bytes of `"pdf-pandoc"`.
pub fn lit_pdf_pandoc() -> (r: Vec<u8>)
    ensures
        r@ == spec_lit_pdf_pandoc(),
{
    vec![112u8, 100u8, 102u8, 45u8, 112u8, 97u8, 110u8, 100u8, 111u8, 99u8]
}

/// The bytes of `"\\usepackage"`.
pub open spec fn spec_lit_usepackage() -> Seq<u8> {
    seq![92u8, 117u8, 115u8, 101u8, 112u8, 97u8, 99u8, 107u8, 97u8, 103u8, 101u8]
}

/// The bytes of `"\\usepackage"`.
pub fn lit_usepackage() -> (r: Vec<u8>)
    ensures
        r@ == spec_lit_usepackage(),
{
    vec![92u8, 117u8, 115u8, 101u8, 112u8, 97u8, 99u8, 107u8, 97u8, 103u8, 101u8]
}

/// The bytes of `"\\usepackage{minted}"`.
pub open spec fn spec_lit_usepackage_minted() -> Seq<u8> {
    seq![92u8, 117u8, 115u8, 101u8, 112u8, 97u8, 99u8, 107u8, 97u8, 103u8, 101u8, 123u8, 109u8, 105u8, 110u8, 116u8, 101u8, 100u8, 125u8]
}

/// The bytes of `"\\usepackage{minted}"`.
pub fn lit_usepackage_minted() -> (r: Vec<u8>)
    ensures
        r@ == spec_lit_usepackage_minted(),
{
    vec![92u8, 117u8, 115u8, 101u8, 112u8, 97u8, 99u8, 107u8, 97u8, 103u8, 101u8, 123u8, 109u8, 105u8, 110u8, 116u8, 101u8, 100u8, 125u8]
}

/// The bytes of `"begin"`.
pub open spec fn spec_lit_begin_word() -> Seq<u8> {
    seq![98u8, 101u8, 103u8, 105u8, 110u8]
}

/// The bytes of `"begin"`.
pub fn lit_begin_word() -> (r: Vec<u8>)
    ensures
        r@ == spec_lit_begin_word(),
{
    vec![98u8, 101u8, 103u8, 105u8, 110u8]
}

/// The bytes of `"end"`.
pub open spec fn spec_lit_end_word() -> Seq<u8> {
    seq![101u8, 110u8, 100u8]
}

/// The bytes of `"end"`.
pub fn lit_end_word() -> (r: Vec<u8>)
    ensures
        r@ == spec_lit_end_word(),
{
    vec![101u8, 110u8, 100u8]
}

/// The bytes of `"{verbatim}"`.
pub open spec fn spec_lit_verbatim() -> Seq<u8> {
    seq![123u8, 118u8, 101u8, 114u8, 98u8, 97u8, 116u8, 105u8, 109u8, 125u8]
}

/// The bytes of `"{verbatim}"`.
pub fn lit_verbatim() -> (r: Vec<u8>)
    ensures
        r@ == spec_lit_verbatim(),
{
    vec![123u8, 118u8, 101u8, 114u8, 98u8, 97u8, 116u8, 105u8, 109u8, 125u8]
}

/// The bytes of `"\\begin{minted}{"`.
pub open spec fn spec_lit_begin_minted_open() -> Seq<u8> {
    seq![92u8, 98u8, 101u8, 103u8, 105u8, 110u8, 123u8, 109u8, 105u8, 110u8, 116u8, 101u8, 100u8, 125u8, 123u8]
}

/// The bytes of `"\\begin{minted}{"`.
pub fn lit_begin_minted_open() -> (r: Vec<u8>)
    ensures
        r@ == spec_lit_begin_minted_open(),
{
    vec![92u8, 98u8, 101u8, 103u8, 105u8, 110u8, 123u8, 109u8, 105u8, 110u8, 116u8, 101u8, 100u8, 125u8, 123u8]
}

/// The bytes of `"}"`.
pub open spec fn spec_lit_close_brace() -> Seq<u8> {
    seq![125u8]
}

/// The bytes of `"}"`.
pub fn lit_close_brace() -> (r: Vec<u8>)
    ensures
        r@ == spec_lit_close_brace(),
{
    vec![125u8]
}

/// The bytes of `"\\end{minted}"`.
pub open spec fn spec_lit_end_minted() -> Seq<u8> {
    seq![92u8, 101u8, 110u8, 100u8, 123u8, 109u8, 105u8, 110u8, 116u8, 101u8, 100u8, 125u8]
}

/// The bytes of `"\\end{minted}"`.
pub fn lit_end_minted() -> (r: Vec<u8>)
    ensures
        r@ == spec_lit_end_minted(),
{
    vec![92u8, 101u8, 110u8, 100u8, 123u8, 109u8, 105u8, 110u8, 116u8, 101u8, 100u8, 125u8]
}

/// The fixed table of well-known language tags and the file suffix each
/// tag's default output file carries.
pub open spec fn spec_suffix_table() -> Seq<LangMappingView> {
    seq![
        // awk -> awk
        LangMappingView { lang: seq![97u8, 119u8, 107u8], suffix: seq![97u8, 119u8, 107u8] },
        // bash -> sh
        LangMappingView { lang: seq![98u8, 97u8, 115u8, 104u8], suffix: seq![115u8, 104u8] },
        // sh -> sh
        LangMappingView { lang: seq![115u8, 104u8], suffix: seq![115u8, 104u8] },
        // shell -> sh
        LangMappingView { lang: seq![115u8, 104u8, 101u8, 108u8, 108u8], suffix: seq![115u8, 104u8] },
        // c -> c
        LangMappingView { lang: seq![99u8], suffix: seq![99u8] },
        // cpp -> cpp
        LangMappingView { lang: seq![99u8, 112u8, 112u8], suffix: seq![99u8, 112u8, 112u8] },
        // c++ -> cpp
        LangMappingView { lang: seq![99u8, 43u8, 43u8], suffix: seq![99u8, 112u8, 112u8] },
        // csharp -> cs
        LangMappingView { lang: seq![99u8, 115u8, 104u8, 97u8, 114u8, 112u8], suffix: seq![99u8, 115u8] },
        // c# -> cs
        LangMappingView { lang: seq![99u8, 35u8], suffix: seq![99u8, 115u8] },
        // cs -> cs
        LangMappingView { lang: seq![99u8, 115u8], suffix: seq![99u8, 115u8] },
        // css -> css
        LangMappingView { lang: seq![99u8, 115u8, 115u8], suffix: seq![99u8, 115u8, 115u8] },
        // d -> d
        LangMappingView { lang: seq![100u8], suffix: seq![100u8] },
        // emacs-lisp -> el
        LangMappingView { lang: seq![101u8, 109u8, 97u8, 99u8, 115u8, 45u8, 108u8, 105u8, 115u8, 112u8], suffix: seq![101u8, 108u8] },
        // elisp -> el
        LangMappingView { lang: seq![101u8, 108u8, 105u8, 115u8, 112u8], suffix: seq![101u8, 108u8] },
        // go -> go
        LangMappingView { lang: seq![103u8, 111u8], suffix: seq![103u8, 111u8] },
        // html -> html
        LangMappingView { lang: seq![104u8, 116u8, 109u8, 108u8], suffix: seq![104u8, 116u8, 109u8, 108u8] },
        // java -> java
        LangMappingView { lang: seq![106u8, 97u8, 118u8, 97u8], suffix: seq![106u8, 97u8, 118u8, 97u8] },
        // js -> js
        LangMappingView { lang: seq![106u8, 115u8], suffix: seq![106u8, 115u8] },
        // json -> json
        LangMappingView { lang: seq![106u8, 115u8, 111u8, 110u8], suffix: seq![106u8, 115u8, 111u8, 110u8] },
        // julia -> jl
        LangMappingView { lang: seq![106u8, 117u8, 108u8, 105u8, 97u8], suffix: seq![106u8, 108u8] },
        // jupyter -> ipynb
        LangMappingView { lang: seq![106u8, 117u8, 112u8, 121u8, 116u8, 101u8, 114u8], suffix: seq![105u8, 112u8, 121u8, 110u8, 98u8] },
        // latex -> tex
        LangMappingView { lang: seq![108u8, 97u8, 116u8, 101u8, 120u8], suffix: seq![116u8, 101u8, 120u8] },
        // lisp -> lisp
        LangMappingView { lang: seq![108u8, 105u8, 115u8, 112u8], suffix: seq![108u8, 105u8, 115u8, 112u8] },
        // lua -> lua
        LangMappingView { lang: seq![108u8, 117u8, 97u8], suffix: seq![108u8, 117u8, 97u8] },
        // markdown -> md
        LangMappingView { lang: seq![109u8, 97u8, 114u8, 107u8, 100u8, 111u8, 119u8, 110u8], suffix: seq![109u8, 100u8] },
        // md -> md
        LangMappingView { lang: seq![109u8, 100u8], suffix: seq![109u8, 100u8] },
        // ocaml -> ml
        LangMappingView { lang: seq![111u8, 99u8, 97u8, 109u8, 108u8], suffix: seq![109u8, 108u8] },
        // perl -> pl
        LangMappingView { lang: seq![112u8, 101u8, 114u8, 108u8], suffix: seq![112u8, 108u8] },
        // php -> php
        LangMappingView { lang: seq![112u8, 104u8, 112u8], suffix: seq![112u8, 104u8, 112u8] },
        // prolog -> pl
        LangMappingView { lang: seq![112u8, 114u8, 111u8, 108u8, 111u8, 103u8], suffix: seq![112u8, 108u8] },
        // python -> py
        LangMappingView { lang: seq![112u8, 121u8, 116u8, 104u8, 111u8, 110u8], suffix: seq![112u8, 121u8] },
        // r -> r
        LangMappingView { lang: seq![114u8], suffix: seq![114u8] },
        // ruby -> rb
        LangMappingView { lang: seq![114u8, 117u8, 98u8, 121u8], suffix: seq![114u8, 98u8] },
        // rust -> rs
        LangMappingView { lang: seq![114u8, 117u8, 115u8, 116u8], suffix: seq![114u8, 115u8] },
        // sql -> sql
        LangMappingView { lang: seq![115u8, 113u8, 108u8], suffix: seq![115u8, 113u8, 108u8] },
        // toml -> toml
        LangMappingView { lang: seq![116u8, 111u8, 109u8, 108u8], suffix: seq![116u8, 111u8, 109u8, 108u8] },
        // yaml -> yml
        LangMappingView { lang: seq![121u8, 97u8, 109u8, 108u8], suffix: seq![121u8, 109u8, 108u8] },
    ]
}

/// Builds the well-known suffix table.
#[verifier::rlimit(40)]
pub fn build_suffix_table() -> (t: Vec<LangMapping>)
    ensures
        t.deep_view() == spec_suffix_table(),
{
    let mut t: Vec<LangMapping> = Vec::new();
    push_mapping(&mut t, LangMapping { lang: vec![97u8, 119u8, 107u8], suffix: vec![97u8, 119u8, 107u8] });
    push_mapping(&mut t, LangMapping { lang: vec![98u8, 97u8, 115u8, 104u8], suffix: vec![115u8, 104u8] });
    push_mapping(&mut t, LangMapping { lang: vec![115u8, 104u8], suffix: vec![115u8, 104u8] });
    push_mapping(&mut t, LangMapping { lang: vec![115u8, 104u8, 101u8, 108u8, 108u8], suffix: vec![115u8, 104u8] });
    push_mapping(&mut t, LangMapping { lang: vec![99u8], suffix: vec![99u8] });
    push_mapping(&mut t, LangMapping { lang: vec![99u8, 112u8, 112u8], suffix: vec![99u8, 112u8, 112u8] });
    push_mapping(&mut t, LangMapping { lang: vec![99u8, 43u8, 43u8], suffix: vec![99u8, 112u8, 112u8] });
    push_mapping(&mut t, LangMapping { lang: vec![99u8, 115u8, 104u8, 97u8, 114u8, 112u8], suffix: vec![99u8, 115u8] });
    push_mapping(&mut t, LangMapping { lang: vec![99u8, 35u8], suffix: vec![99u8, 115u8] });
    push_mapping(&mut t, LangMapping { lang: vec![99u8, 115u8], suffix: vec![99u8, 115u8] });
    push_mapping(&mut t, LangMapping { lang: vec![99u8, 115u8, 115u8], suffix: vec![99u8, 115u8, 115u8] });
    push_mapping(&mut t, LangMapping { lang: vec![100u8], suffix: vec![100u8] });
    push_mapping(&mut t, LangMapping { lang: vec![101u8, 109u8, 97u8, 99u8, 115u8, 45u8, 108u8, 105u8, 115u8, 112u8], suffix: vec![101u8, 108u8] });
    push_mapping(&mut t, LangMapping { lang: vec![101u8, 108u8, 105u8, 115u8, 112u8], suffix: vec![101u8, 108u8] });
    push_mapping(&mut t, LangMapping { lang: vec![103u8, 111u8], suffix: vec![103u8, 111u8] });
    push_mapping(&mut t, LangMapping { lang: vec![104u8, 116u8, 109u8, 108u8], suffix: vec![104u8, 116u8, 109u8, 108u8] });
    push_mapping(&mut t, LangMapping { lang: vec![106u8, 97u8, 118u8, 97u8], suffix: vec![106u8, 97u8, 118u8, 97u8] });
    push_mapping(&mut t, LangMapping { lang: vec![106u8, 115u8], suffix: vec![106u8, 115u8] });
    push_mapping(&mut t, LangMapping { lang: vec![106u8, 115u8, 111u8, 110u8], suffix: vec![106u8, 115u8, 111u8, 110u8] });
    push_mapping(&mut t, LangMapping { lang: vec![106u8, 117u8, 108u8, 105u8, 97u8], suffix: vec![106u8, 108u8] });
    push_mapping(&mut t, LangMapping { lang: vec![106u8, 117u8, 112u8, 121u8, 116u8, 101u8, 114u8], suffix: vec![105u8, 112u8, 121u8, 110u8, 98u8] });
    push_mapping(&mut t, LangMapping { lang: vec![108u8, 97u8, 116u8, 101u8, 120u8], suffix: vec![116u8, 101u8, 120u8] });
    push_mapping(&mut t, LangMapping { lang: vec![108u8, 105u8, 115u8, 112u8], suffix: vec![108u8, 105u8, 115u8, 112u8] });
    push_mapping(&mut t, LangMapping { lang: vec![108u8, 117u8, 97u8], suffix: vec![108u8, 117u8, 97u8] });
    push_mapping(&mut t, LangMapping { lang: vec![109u8, 97u8, 114u8, 107u8, 100u8, 111u8, 119u8, 110u8], suffix: vec![109u8, 100u8] });
    push_mapping(&mut t, LangMapping { lang: vec![109u8, 100u8], suffix: vec![109u8, 100u8] });
    push_mapping(&mut t, LangMapping { lang: vec![111u8, 99u8, 97u8, 109u8, 108u8], suffix: vec![109u8, 108u8] });
    push_mapping(&mut t, LangMapping { lang: vec![112u8, 101u8, 114u8, 108u8], suffix: vec![112u8, 108u8] });
    push_mapping(&mut t, LangMapping { lang: vec![112u8, 104u8, 112u8], suffix: vec![112u8, 104u8, 112u8] });
    push_mapping(&mut t, LangMapping { lang: vec![112u8, 114u8, 111u8, 108u8, 111u8, 103u8], suffix: vec![112u8, 108u8] });
    push_mapping(&mut t, LangMapping { lang: vec![112u8, 121u8, 116u8, 104u8, 111u8, 110u8], suffix: vec![112u8, 121u8] });
    push_mapping(&mut t, LangMapping { lang: vec![114u8], suffix: vec![114u8] });
    push_mapping(&mut t, LangMapping { lang: vec![114u8, 117u8, 98u8, 121u8], suffix: vec![114u8, 98u8] });
    push_mapping(&mut t, LangMapping { lang: vec![114u8, 117u8, 115u8, 116u8], suffix: vec![114u8, 115u8] });
    push_mapping(&mut t, LangMapping { lang: vec![115u8, 113u8, 108u8], suffix: vec![115u8, 113u8, 108u8] });
    push_mapping(&mut t, LangMapping { lang: vec![116u8, 111u8, 109u8, 108u8], suffix: vec![116u8, 111u8, 109u8, 108u8] });
    push_mapping(&mut t, LangMapping { lang: vec![121u8, 97u8, 109u8, 108u8], suffix: vec![121u8, 109u8, 108u8] });
    proof {
        assert(t.deep_view() =~~= spec_suffix_table());
    }
    t
}

/// The six fixed lines that open a notebook code cell.
pub open spec fn spec_notebook_cell_head() -> Seq<Seq<u8>> {
    seq![
        //   {
        seq![32u8, 32u8, 123u8],
        //    \"cell_type\": \"code\",
        seq![32u8, 32u8, 32u8, 34u8, 99u8, 101u8, 108u8, 108u8, 95u8, 116u8, 121u8, 112u8, 101u8, 34u8, 58u8, 32u8, 34u8, 99u8, 111u8, 100u8, 101u8, 34u8, 44u8],
        //    \"execution_count\": null,
        seq![32u8, 32u8, 32u8, 34u8, 101u8, 120u8, 101u8, 99u8, 117u8, 116u8, 105u8, 111u8, 110u8, 95u8, 99u8, 111u8, 117u8, 110u8, 116u8, 34u8, 58u8, 32u8, 110u8, 117u8, 108u8, 108u8, 44u8],
        //    \"metadata\": {},
        seq![32u8, 32u8, 32u8, 34u8, 109u8, 101u8, 116u8, 97u8, 100u8, 97u8, 116u8, 97u8, 34u8, 58u8, 32u8, 123u8, 125u8, 44u8],
        //    \"outputs\": [],
        seq![32u8, 32u8, 32u8, 34u8, 111u8, 117u8, 116u8, 112u8, 117u8, 116u8, 115u8, 34u8, 58u8, 32u8, 91u8, 93u8, 44u8],
        //    \"source\": [
        seq![32u8, 32u8, 32u8, 34u8, 115u8, 111u8, 117u8, 114u8, 99u8, 101u8, 34u8, 58u8, 32u8, 91u8],
    ]
}

/// The six fixed lines that open a notebook code cell.
pub fn notebook_cell_head() -> (r: Vec<Vec<u8>>)
    ensures
        r.deep_view() == spec_notebook_cell_head(),
{
    let mut r: Vec<Vec<u8>> = Vec::new();
    push_line(&mut r, vec![32u8, 32u8, 123u8]);
    push_line(&mut r, vec![32u8, 32u8, 32u8, 34u8, 99u8, 101u8, 108u8, 108u8, 95u8, 116u8, 121u8, 112u8, 101u8, 34u8, 58u8, 32u8, 34u8, 99u8, 111u8, 100u8, 101u8, 34u8, 44u8]);
    push_line(&mut r, vec![32u8, 32u8, 32u8, 34u8, 101u8, 120u8, 101u8, 99u8, 117u8, 116u8, 105u8, 111u8, 110u8, 95u8, 99u8, 111u8, 117u8, 110u8, 116u8, 34u8, 58u8, 32u8, 110u8, 117u8, 108u8, 108u8, 44u8]);
    push_line(&mut r, vec![32u8, 32u8, 32u8, 34u8, 109u8, 101u8, 116u8, 97u8, 100u8, 97u8, 116u8, 97u8, 34u8, 58u8, 32u8, 123u8, 125u8, 44u8]);
    push_line(&mut r, vec![32u8, 32u8, 32u8, 34u8, 111u8, 117u8, 116u8, 112u8, 117u8, 116u8, 115u8, 34u8, 58u8, 32u8, 91u8, 93u8, 44u8]);
    push_line(&mut r, vec![32u8, 32u8, 32u8, 34u8, 115u8, 111u8, 117u8, 114u8, 99u8, 101u8, 34u8, 58u8, 32u8, 91u8]);
    proof {
        assert(r.deep_view() =~= spec_notebook_cell_head());
    }
    r
}

/// The two fixed lines that close a notebook code cell.
pub open spec fn spec_notebook_cell_tail() -> Seq<Seq<u8>> {
    seq![
        //    ]
        seq![32u8, 32u8, 32u8, 93u8],
        //   },
        seq![32u8, 32u8, 125u8, 44u8],
    ]
}

/// The two fixed lines that close a notebook code cell.
pub fn notebook_cell_tail() -> (r: Vec<Vec<u8>>)
    ensures
        r.deep_view() == spec_notebook_cell_tail(),
{
    let mut r: Vec<Vec<u8>> = Vec::new();
    push_line(&mut r, vec![32u8, 32u8, 32u8, 93u8]);
    push_line(&mut r, vec![32u8, 32u8, 125u8, 44u8]);
    proof {
        assert(r.deep_view() =~= spec_notebook_cell_tail());
    }
    r
}

/// The fixed notebook metadata that follows the cell list.
pub open spec fn spec_notebook_trailer() -> Seq<Seq<u8>> {
    seq![
        //  ],
        seq![32u8, 93u8, 44u8],
        //  \"metadata\": {
        seq![32u8, 34u8, 109u8, 101u8, 116u8, 97u8, 100u8, 97u8, 116u8, 97u8, 34u8, 58u8, 32u8, 123u8],
        //   \"kernelspec\": {
        seq![32u8, 32u8, 34u8, 107u8, 101u8, 114u8, 110u8, 101u8, 108u8, 115u8, 112u8, 101u8, 99u8, 34u8, 58u8, 32u8, 123u8],
        //    \"display_name\": \"Python 3\",
        seq![32u8, 32u8, 32u8, 34u8, 100u8, 105u8, 115u8, 112u8, 108u8, 97u8, 121u8, 95u8, 110u8, 97u8, 109u8, 101u8, 34u8, 58u8, 32u8, 34u8, 80u8, 121u8, 116u8, 104u8, 111u8, 110u8, 32u8, 51u8, 34u8, 44u8],
        //    \"language\": \"python\",
        seq![32u8, 32u8, 32u8, 34u8, 108u8, 97u8, 110u8, 103u8, 117u8, 97u8, 103u8, 101u8, 34u8, 58u8, 32u8, 34u8, 112u8, 121u8, 116u8, 104u8, 111u8, 110u8, 34u8, 44u8],
        //    \"name\": \"python3\"
        seq![32u8, 32u8, 32u8, 34u8, 110u8, 97u8, 109u8, 101u8, 34u8, 58u8, 32u8, 34u8, 112u8, 121u8, 116u8, 104u8, 111u8, 110u8, 51u8, 34u8],
        //   },
        seq![32u8, 32u8, 125u8, 44u8],
        //   \"language_info\": {
        seq![32u8, 32u8, 34u8, 108u8, 97u8, 110u8, 103u8, 117u8, 97u8, 103u8, 101u8, 95u8, 105u8, 110u8, 102u8, 111u8, 34u8, 58u8, 32u8, 123u8],
        //    \"codemirror_mode\": {
        seq![32u8, 32u8, 32u8, 34u8, 99u8, 111u8, 100u8, 101u8, 109u8, 105u8, 114u8, 114u8, 111u8, 114u8, 95u8, 109u8, 111u8, 100u8, 101u8, 34u8, 58u8, 32u8, 123u8],
        //     \"name\": \"ipython\",
        seq![32u8, 32u8, 32u8, 32u8, 34u8, 110u8, 97u8, 109u8, 101u8, 34u8, 58u8, 32u8, 34u8, 105u8, 112u8, 121u8, 116u8, 104u8, 111u8, 110u8, 34u8, 44u8],
        //     \"version\": 3
        seq![32u8, 32u8, 32u8, 32u8, 34u8, 118u8, 101u8, 114u8, 115u8, 105u8, 111u8, 110u8, 34u8, 58u8, 32u8, 51u8],
        //    },
        seq![32u8, 32u8, 32u8, 125u8, 44u8],
        //    \"file_extension\": \".py\",
        seq![32u8, 32u8, 32u8, 34u8, 102u8, 105u8, 108u8, 101u8, 95u8, 101u8, 120u8, 116u8, 101u8, 110u8, 115u8, 105u8, 111u8, 110u8, 34u8, 58u8, 32u8, 34u8, 46u8, 112u8, 121u8, 34u8, 44u8],
        //    \"mimetype\": \"text/x-python\",
        seq![32u8, 32u8, 32u8, 34u8, 109u8, 105u8, 109u8, 101u8, 116u8, 121u8, 112u8, 101u8, 34u8, 58u8, 32u8, 34u8, 116u8, 101u8, 120u8, 116u8, 47u8, 120u8, 45u8, 112u8, 121u8, 116u8, 104u8, 111u8, 110u8, 34u8, 44u8],
        //    \"name\": \"python\",
        seq![32u8, 32u8, 32u8, 34u8, 110u8, 97u8, 109u8, 101u8, 34u8, 58u8, 32u8, 34u8, 112u8, 121u8, 116u8, 104u8, 111u8, 110u8, 34u8, 44u8],
        //    \"nbconvert_exporter\": \"python\",
        seq![32u8, 32u8, 32u8, 34u8, 110u8, 98u8, 99u8, 111u8, 110u8, 118u8, 101u8, 114u8, 116u8, 95u8, 101u8, 120u8, 112u8, 111u8, 114u8, 116u8, 101u8, 114u8, 34u8, 58u8, 32u8, 34u8, 112u8, 121u8, 116u8, 104u8, 111u8, 110u8, 34u8, 44u8],
        //    \"pygments_lexer\": \"ipython3\",
        seq![32u8, 32u8, 32u8, 34u8, 112u8, 121u8, 103u8, 109u8, 101u8, 110u8, 116u8, 115u8, 95u8, 108u8, 101u8, 120u8, 101u8, 114u8, 34u8, 58u8, 32u8, 34u8, 105u8, 112u8, 121u8, 116u8, 104u8, 111u8, 110u8, 51u8, 34u8, 44u8],
        //    \"version\": \"3.6.4\"
        seq![32u8, 32u8, 32u8, 34u8, 118u8, 101u8, 114u8, 115u8, 105u8, 111u8, 110u8, 34u8, 58u8, 32u8, 34u8, 51u8, 46u8, 54u8, 46u8, 52u8, 34u8],
        //   }
        seq![32u8, 32u8, 125u8],
        //  },
        seq![32u8, 125u8, 44u8],
        //  \"nbformat\": 4,
        seq![32u8, 34u8, 110u8, 98u8, 102u8, 111u8, 114u8, 109u8, 97u8, 116u8, 34u8, 58u8, 32u8, 52u8, 44u8],
        //  \"nbformat_minor\": 2
        seq![32u8, 34u8, 110u8, 98u8, 102u8, 111u8, 114u8, 109u8, 97u8, 116u8, 95u8, 109u8, 105u8, 110u8, 111u8, 114u8, 34u8, 58u8, 32u8, 50u8],
        // }
        seq![125u8],
    ]
}

/// The fixed notebook metadata that follows the cell list.
pub fn notebook_trailer() -> (r: Vec<Vec<u8>>)
    ensures
        r.deep_view() == spec_notebook_trailer(),
{
    let mut r: Vec<Vec<u8>> = Vec::new();
    push_line(&mut r, vec![32u8, 93u8, 44u8]);
    push_line(&mut r, vec![32u8, 34u8, 109u8, 101u8, 116u8, 97u8, 100u8, 97u8, 116u8, 97u8, 34u8, 58u8, 32u8, 123u8]);
    push_line(&mut r, vec![32u8, 32u8, 34u8, 107u8, 101u8, 114u8, 110u8, 101u8, 108u8, 115u8, 112u8, 101u8, 99u8, 34u8, 58u8, 32u8, 123u8]);
    push_line(&mut r, vec![32u8, 32u8, 32u8, 34u8, 100u8, 105u8, 115u8, 112u8, 108u8, 97u8, 121u8, 95u8, 110u8, 97u8, 109u8, 101u8, 34u8, 58u8, 32u8, 34u8, 80u8, 121u8, 116u8, 104u8, 111u8, 110u8, 32u8, 51u8, 34u8, 44u8]);
    push_line(&mut r, vec![32u8, 32u8, 32u8, 34u8, 108u8, 97u8, 110u8, 103u8, 117u8, 97u8, 103u8, 101u8, 34u8, 58u8, 32u8, 34u8, 112u8, 121u8, 116u8, 104u8, 111u8, 110u8, 34u8, 44u8]);
    push_line(&mut r, vec![32u8, 32u8, 32u8, 34u8, 110u8, 97u8, 109u8, 101u8, 34u8, 58u8, 32u8, 34u8, 112u8, 121u8, 116u8, 104u8, 111u8, 110u8, 51u8, 34u8]);
    push_line(&mut r, vec![32u8, 32u8, 125u8, 44u8]);
    push_line(&mut r, vec![32u8, 32u8, 34u8, 108u8, 97u8, 110u8, 103u8, 117u8, 97u8, 103u8, 101u8, 95u8, 105u8, 110u8, 102u8, 111u8, 34u8, 58u8, 32u8, 123u8]);
    push_line(&mut r, vec![32u8, 32u8, 32u8, 34u8, 99u8, 111u8, 100u8, 101u8, 109u8, 105u8, 114u8, 114u8, 111u8, 114u8, 95u8, 109u8, 111u8, 100u8, 101u8, 34u8, 58u8, 32u8, 123u8]);
    push_line(&mut r, vec![32u8, 32u8, 32u8, 32u8, 34u8, 110u8, 97u8, 109u8, 101u8, 34u8, 58u8, 32u8, 34u8, 105u8, 112u8, 121u8, 116u8, 104u8, 111u8, 110u8, 34u8, 44u8]);
    push_line(&mut r, vec![32u8, 32u8, 32u8, 32u8, 34u8, 118u8, 101u8, 114u8, 115u8, 105u8, 111u8, 110u8, 34u8, 58u8, 32u8, 51u8]);
    push_line(&mut r, vec![32u8, 32u8, 32u8, 125u8, 44u8]);
    push_line(&mut r, vec![32u8, 32u8, 32u8, 34u8, 102u8, 105u8, 108u8, 101u8, 95u8, 101u8, 120u8, 116u8, 101u8, 110u8, 115u8, 105u8, 111u8, 110u8, 34u8, 58u8, 32u8, 34u8, 46u8, 112u8, 121u8, 34u8, 44u8]);
    push_line(&mut r, vec![32u8, 32u8, 32u8, 34u8, 109u8, 105u8, 109u8, 101u8, 116u8, 121u8, 112u8, 101u8, 34u8, 58u8, 32u8, 34u8, 116u8, 101u8, 120u8, 116u8, 47u8, 120u8, 45u8, 112u8, 121u8, 116u8, 104u8, 111u8, 110u8, 34u8, 44u8]);
    push_line(&mut r, vec![32u8, 32u8, 32u8, 34u8, 110u8, 97u8, 109u8, 101u8, 34u8, 58u8, 32u8, 34u8, 112u8, 121u8, 116u8, 104u8, 111u8, 110u8, 34u8, 44u8]);
    push_line(&mut r, vec![32u8, 32u8, 32u8, 34u8, 110u8, 98u8, 99u8, 111u8, 110u8, 118u8, 101u8, 114u8, 116u8, 95u8, 101u8, 120u8, 112u8, 111u8, 114u8, 116u8, 101u8, 114u8, 34u8, 58u8, 32u8, 34u8, 112u8, 121u8, 116u8, 104u8, 111u8, 110u8, 34u8, 44u8]);
    push_line(&mut r, vec![32u8, 32u8, 32u8, 34u8, 112u8, 121u8, 103u8, 109u8, 101u8, 110u8, 116u8, 115u8, 95u8, 108u8, 101u8, 120u8, 101u8, 114u8, 34u8, 58u8, 32u8, 34u8, 105u8, 112u8, 121u8, 116u8, 104u8, 111u8, 110u8, 51u8, 34u8, 44u8]);
    push_line(&mut r, vec![32u8, 32u8, 32u8, 34u8, 118u8, 101u8, 114u8, 115u8, 105u8, 111u8, 110u8, 34u8, 58u8, 32u8, 34u8, 51u8, 46u8, 54u8, 46u8, 52u8, 34u8]);
    push_line(&mut r, vec![32u8, 32u8, 125u8]);
    push_line(&mut r, vec![32u8, 125u8, 44u8]);
    push_line(&mut r, vec![32u8, 34u8, 110u8, 98u8, 102u8, 111u8, 114u8, 109u8, 97u8, 116u8, 34u8, 58u8, 32u8, 52u8, 44u8]);
    push_line(&mut r, vec![32u8, 34u8, 110u8, 98u8, 102u8, 111u8, 114u8, 109u8, 97u8, 116u8, 95u8, 109u8, 105u8, 110u8, 111u8, 114u8, 34u8, 58u8, 32u8, 50u8]);
    push_line(&mut r, vec![125u8]);
    proof {
        assert(r.deep_view() =~~= spec_notebook_trailer());
    }
    r
}

} // verus!
