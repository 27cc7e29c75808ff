//! Output naming, the text utilities, the notebook container, and the
//! LaTeX substitution pass.

use exorg::block::{LangMapping, SrcBlock};
use exorg::export::Exporter;
use exorg::router::output_file_name_for;
use exorg::text::{ascii_lowercase, expand_tabs, replace_all, split_tokens, trim};

fn b(s: &str) -> Vec<u8> {
    s.as_bytes().to_vec()
}

fn lines(ls: &[&str]) -> Vec<Vec<u8>> {
    ls.iter().map(|s| b(s)).collect()
}

fn block(name: &str, lang: &str, ls: &[&str]) -> SrcBlock {
    SrcBlock {
        name: b(name),
        lang: b(lang),
        lines: lines(ls),
        dependencies: Vec::new(),
        filename: None,
    }
}

#[test]
fn output_names_from_known_suffix_table() {
    let no_langs: Vec<LangMapping> = Vec::new();
    assert_eq!(output_file_name_for(&b("dir/doc.org"), &b("python"), &no_langs), b("doc.py"));
    assert_eq!(output_file_name_for(&b("doc.org"), &b("rust"), &no_langs), b("doc.rs"));
    assert_eq!(output_file_name_for(&b("doc.org"), &b("jupyter"), &no_langs), b("doc.ipynb"));
    assert_eq!(output_file_name_for(&b("doc.org"), &b("latex"), &no_langs), b("doc.tex"));
    assert_eq!(output_file_name_for(&b("doc.org"), &b("c++"), &no_langs), b("doc.cpp"));
    assert_eq!(output_file_name_for(&b("a/b/c.x.org"), &b("sh"), &no_langs), b("c.sh"));
}

#[test]
fn output_name_falls_back_to_declared_mapping() {
    let langs = vec![LangMapping { lang: b("mylang"), suffix: b("ml2") }];
    assert_eq!(output_file_name_for(&b("doc.org"), &b("mylang"), &langs), b("doc.ml2"));
}

#[test]
fn output_name_without_any_suffix_is_the_stem() {
    let no_langs: Vec<LangMapping> = Vec::new();
    assert_eq!(output_file_name_for(&b("doc.org"), &b("unknown"), &no_langs), b("doc"));
    assert_eq!(output_file_name_for(&b("doc.org"), &b(""), &no_langs), b("doc"));
}

#[test]
fn trim_strips_surrounding_whitespace() {
    assert_eq!(trim(&b("  a b \r")), b("a b"));
    assert_eq!(trim(&b("")), b(""));
    assert_eq!(trim(&b("   ")), b(""));
    assert_eq!(trim(&b("inner  space")), b("inner  space"));
}

#[test]
fn split_tokens_drops_empty_pieces() {
    assert_eq!(split_tokens(&b("a  b   c")), vec![b("a"), b("b"), b("c")]);
    assert_eq!(split_tokens(&b("  ")), Vec::<Vec<u8>>::new());
    assert_eq!(split_tokens(&b("one")), vec![b("one")]);
}

#[test]
fn replace_all_scans_left_to_right() {
    assert_eq!(replace_all(&b("aaa"), &b("aa"), &b("b")), b("ba"));
    assert_eq!(replace_all(&b("x\ny"), &b("\n"), &b("")), b("xy"));
    assert_eq!(replace_all(&b("abc"), &b("z"), &b("q")), b("abc"));
}

#[test]
fn ascii_lowercase_touches_only_letters() {
    assert_eq!(ascii_lowercase(&b("AbC-3Z")), b("abc-3z"));
}

#[test]
fn tabs_expand_to_four_spaces() {
    assert_eq!(expand_tabs(&b("a\tb")), b("a    b"));
    assert_eq!(expand_tabs(&b("\t\t")), b("        "));
}

#[test]
fn notebook_container_is_exact() {
    let ex = Exporter::new(b("doc.org"), vec![block("A", "python", &["print(1)"])], Vec::new());
    let files = ex.tangle(&b("jupyter"), &None, &None).unwrap();
    assert_eq!(files.len(), 1);
    assert_eq!(files[0].name, b("doc.ipynb"));
    let expected = lines(&[
        "{",
        " \"cells\": [",
        "  {",
        "   \"cell_type\": \"code\",",
        "   \"execution_count\": null,",
        "   \"metadata\": {},",
        "   \"outputs\": [],",
        "   \"source\": [",
        "    \"print(1)\"",
        "   ]",
        "  }",
        " ],",
        " \"metadata\": {",
        "  \"kernelspec\": {",
        "   \"display_name\": \"Python 3\",",
        "   \"language\": \"python\",",
        "   \"name\": \"python3\"",
        "  },",
        "  \"language_info\": {",
        "   \"codemirror_mode\": {",
        "    \"name\": \"ipython\",",
        "    \"version\": 3",
        "   },",
        "   \"file_extension\": \".py\",",
        "   \"mimetype\": \"text/x-python\",",
        "   \"name\": \"python\",",
        "   \"nbconvert_exporter\": \"python\",",
        "   \"pygments_lexer\": \"ipython3\",",
        "   \"version\": \"3.6.4\"",
        "  }",
        " },",
        " \"nbformat\": 4,",
        " \"nbformat_minor\": 2",
        "}",
    ]);
    assert_eq!(files[0].lines, expected);
}

#[test]
fn notebook_escapes_source_lines() {
    let ex = Exporter::new(
        b("doc.org"),
        vec![block("A", "python", &["say(\"hi\")", "end"])],
        Vec::new(),
    );
    let files = ex.tangle(&b("jupyter"), &None, &None).unwrap();
    let body = &files[0].lines;
    assert!(body.contains(&b("    \"say(\\\"hi\\\")\\n\",")));
    assert!(body.contains(&b("    \"end\"")));
}

#[test]
fn notebook_admits_python_blocks_only_with_jupyter_tagged() {
    let ex = Exporter::new(
        b("doc.org"),
        vec![block("P", "python", &["p"]), block("R", "rust", &["r"])],
        Vec::new(),
    );
    let files = ex.tangle(&b("jupyter"), &None, &None).unwrap();
    let joined: Vec<u8> = files[0].lines.concat();
    let hay = String::from_utf8(joined).unwrap();
    assert!(hay.contains("\"p\\n\"") || hay.contains("\"p\""));
    assert!(!hay.contains("\"r\""));
}

#[test]
fn mint_tex_rewrites_matching_verbatim_blocks() {
    let ex = Exporter::new(b("doc.org"), vec![block("A", "rust", &["code1"])], Vec::new());
    let out = ex.mint_tex(&lines(&[
        "\\usepackage{x}",
        "\\begin{verbatim}",
        "code1",
        "\\end{verbatim}",
    ]));
    assert_eq!(
        out,
        lines(&[
            "\\usepackage{minted}",
            "\\usepackage{x}",
            "\\begin{minted}{rust}",
            "code1",
            "\\end{minted}",
        ])
    );
}

#[test]
fn mint_tex_leaves_untagged_blocks_alone() {
    let ex = Exporter::new(b("doc.org"), vec![block("A", "", &["code1"])], Vec::new());
    let out = ex.mint_tex(&lines(&["\\begin{verbatim}", "code1", "\\end{verbatim}"]));
    assert_eq!(out, lines(&["\\begin{verbatim}", "code1", "\\end{verbatim}"]));
}
