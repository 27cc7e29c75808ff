//! End-to-end tangle behaviour: selection, ordering, routing, and the
//! export dispatch.

use exorg::block::SrcBlock;
use exorg::error::ErrorKind;
use exorg::export::{ExportAction, Exporter, PdfOpt};

fn b(s: &str) -> Vec<u8> {
    s.as_bytes().to_vec()
}

fn lines(ls: &[&str]) -> Vec<Vec<u8>> {
    ls.iter().map(|s| b(s)).collect()
}

fn block(name: &str, lang: &str, ls: &[&str], deps: &[&str], dest: Option<&str>) -> SrcBlock {
    SrcBlock {
        name: b(name),
        lang: b(lang),
        lines: lines(ls),
        dependencies: deps.iter().map(|d| b(d)).collect(),
        filename: dest.map(b),
    }
}

fn exporter(blocks: Vec<SrcBlock>) -> Exporter {
    Exporter::new(b("doc.org"), blocks, Vec::new())
}

#[test]
fn round_trip_single_block() {
    let ex = exporter(vec![block("A", "rust", &["x"], &[], None)]);
    let files = ex.tangle(&b("rust"), &None, &None).unwrap();
    assert_eq!(files.len(), 1);
    assert_eq!(files[0].name, b("doc.rs"));
    assert_eq!(files[0].lines, lines(&["x"]));
}

#[test]
fn single_file_interior_separators_kept() {
    let ex = exporter(vec![
        block("A", "rust", &["a1", "a2"], &[], None),
        block("B", "rust", &["b1"], &[], None),
    ]);
    let files = ex.tangle(&b("rust"), &None, &None).unwrap();
    assert_eq!(files.len(), 1);
    assert_eq!(files[0].lines, lines(&["a1", "a2", "", "b1"]));
}

#[test]
fn empty_blocks_contribute_nothing() {
    let ex = exporter(vec![
        block("A", "rust", &[], &[], None),
        block("B", "rust", &["b"], &[], None),
    ]);
    let files = ex.tangle(&b("rust"), &None, &None).unwrap();
    assert_eq!(files[0].lines, lines(&["b"]));
}

#[test]
fn no_matching_blocks_persists_nothing() {
    let ex = exporter(vec![block("A", "rust", &["x"], &[], None)]);
    let files = ex.tangle(&b("go"), &None, &None).unwrap();
    assert_eq!(files.len(), 0);
}

fn abc_blocks(order: &[&str]) -> Vec<SrcBlock> {
    order
        .iter()
        .map(|n| match *n {
            "A" => block("A", "rust", &["a"], &["B"], None),
            "B" => block("B", "rust", &["b"], &["C"], None),
            "C" => block("C", "rust", &["c"], &[], None),
            _ => unreachable!(),
        })
        .collect()
}

#[test]
fn dependency_closure_order() {
    for order in [
        ["A", "B", "C"],
        ["A", "C", "B"],
        ["B", "A", "C"],
        ["B", "C", "A"],
        ["C", "A", "B"],
        ["C", "B", "A"],
    ] {
        let ex = exporter(abc_blocks(&order));
        let files = ex.tangle(&b("rust"), &Some(b("A")), &None).unwrap();
        assert_eq!(files.len(), 1, "order {:?}", order);
        assert_eq!(files[0].lines, lines(&["c", "", "b", "", "a"]), "order {:?}", order);
    }
}

#[test]
fn selection_drops_unrelated_blocks() {
    let mut blocks = abc_blocks(&["A", "B", "C"]);
    blocks.push(block("D", "rust", &["d"], &[], None));
    let ex = exporter(blocks);
    let files = ex.tangle(&b("rust"), &Some(b("A")), &None).unwrap();
    assert_eq!(files[0].lines, lines(&["c", "", "b", "", "a"]));
}

#[test]
fn cycle_detection() {
    let ex = exporter(vec![
        block("A", "rust", &["a"], &["B"], None),
        block("B", "rust", &["b"], &["A"], None),
    ]);
    let r = ex.tangle(&b("rust"), &Some(b("A")), &None);
    assert!(matches!(r, Err(ErrorKind::UnsatisfiableDependencies)));
}

#[test]
fn dependency_on_unknown_name_fails() {
    let ex = exporter(vec![block("A", "rust", &["a"], &["nowhere"], None)]);
    let r = ex.tangle(&b("rust"), &Some(b("A")), &None);
    assert!(matches!(r, Err(ErrorKind::UnsatisfiableDependencies)));
}

#[test]
fn ambiguous_exact_names() {
    let ex = exporter(vec![
        block("foo", "rust", &["1"], &[], None),
        block("foo", "rust", &["2"], &[], None),
    ]);
    let r = ex.tangle(&b("rust"), &Some(b("foo")), &None);
    assert!(matches!(r, Err(ErrorKind::AmbiguousCodeBlockName)));
}

#[test]
fn ambiguous_prefix_names() {
    let ex = exporter(vec![
        block("foobar", "rust", &["1"], &[], None),
        block("foobaz", "rust", &["2"], &[], None),
    ]);
    let r = ex.tangle(&b("rust"), &Some(b("foo")), &None);
    assert!(matches!(r, Err(ErrorKind::AmbiguousCodeBlockName)));
}

#[test]
fn prefix_autocompletion() {
    let ex = exporter(vec![
        block("foobar", "rust", &["fb"], &[], None),
        block("other", "rust", &["o"], &[], None),
    ]);
    let files = ex.tangle(&b("rust"), &Some(b("foo")), &None).unwrap();
    assert_eq!(files[0].lines, lines(&["fb"]));
}

#[test]
fn exact_match_beats_prefix() {
    let ex = exporter(vec![
        block("foo", "rust", &["exact"], &[], None),
        block("foobar", "rust", &["longer"], &[], None),
    ]);
    let files = ex.tangle(&b("rust"), &Some(b("foo")), &None).unwrap();
    assert_eq!(files[0].lines, lines(&["exact"]));
}

#[test]
fn missing_selection() {
    let ex = exporter(vec![block("A", "rust", &["a"], &[], None)]);
    let r = ex.tangle(&b("rust"), &Some(b("zzz")), &None);
    assert!(matches!(r, Err(ErrorKind::CodeBlockNotFound)));
}

#[test]
fn select_blocks_orders_candidates() {
    let ex = exporter(abc_blocks(&["A", "B", "C"]));
    let mut cands = abc_blocks(&["A", "B", "C"]);
    ex.select_blocks(&b("A"), &mut cands).unwrap();
    let names: Vec<Vec<u8>> = cands.iter().map(|blk| blk.name.clone()).collect();
    assert_eq!(names, vec![b("C"), b("B"), b("A")]);
}

#[test]
fn multi_file_routing() {
    let ex = exporter(vec![
        block("A", "rust", &["1"], &[], Some("a.out")),
        block("B", "go", &["2"], &[], Some("b.out")),
        block("C", "", &["3"], &[], None),
    ]);
    let files = ex.tangle(&b("."), &None, &None).unwrap();
    assert_eq!(files.len(), 3);
    assert_eq!(files[0].name, b("doc"));
    assert_eq!(files[0].lines, lines(&["3", ""]));
    assert_eq!(files[1].name, b("a.out"));
    assert_eq!(files[1].lines, lines(&["1", ""]));
    assert_eq!(files[2].name, b("b.out"));
    assert_eq!(files[2].lines, lines(&["2", ""]));
}

#[test]
fn multi_file_groups_shared_destination() {
    let ex = exporter(vec![
        block("A", "rust", &["1"], &[], Some("a.out")),
        block("B", "go", &["2"], &[], Some("a.out")),
    ]);
    let files = ex.tangle(&b("."), &None, &None).unwrap();
    assert_eq!(files.len(), 1);
    assert_eq!(files[0].name, b("a.out"));
    assert_eq!(files[0].lines, lines(&["1", "", "2", ""]));
}

#[test]
fn idempotent_plans() {
    let ex = exporter(vec![
        block("A", "rust", &["a"], &["B"], None),
        block("B", "rust", &["b"], &[], None),
    ]);
    let f1 = ex.tangle(&b("rust"), &Some(b("A")), &None).unwrap();
    let f2 = ex.tangle(&b("rust"), &Some(b("A")), &None).unwrap();
    assert_eq!(f1.len(), f2.len());
    for (x, y) in f1.iter().zip(f2.iter()) {
        assert_eq!(x.name, y.name);
        assert_eq!(x.lines, y.lines);
    }
}

#[test]
fn language_filter_exclusive() {
    let ex = exporter(vec![
        block("R", "rust", &["rust-line"], &[], None),
        block("G", "go", &["go-line"], &[], None),
    ]);
    let files = ex.tangle(&b("go"), &None, &None).unwrap();
    assert_eq!(files.len(), 1);
    assert_eq!(files[0].name, b("doc.go"));
    assert_eq!(files[0].lines, lines(&["go-line"]));
}

#[test]
fn explicit_output_name_wins() {
    let ex = exporter(vec![block("A", "rust", &["x"], &[], None)]);
    let files = ex.tangle(&b("rust"), &None, &Some(b("custom.txt"))).unwrap();
    assert_eq!(files[0].name, b("custom.txt"));
}

#[test]
fn export_dispatches_weave_backends() {
    let ex = exporter(vec![]);
    assert!(matches!(
        ex.export(&b("pdf"), &None, &None),
        Ok(ExportAction::Weave(PdfOpt::Emacs))
    ));
    assert!(matches!(
        ex.export(&b("PDF-Minted"), &None, &None),
        Ok(ExportAction::Weave(PdfOpt::EmacsMinted))
    ));
    assert!(matches!(
        ex.export(&b("pdf-pandoc"), &None, &None),
        Ok(ExportAction::Weave(PdfOpt::Pandoc))
    ));
}

#[test]
fn export_lowercases_tangle_target() {
    let ex = exporter(vec![block("A", "rust", &["x"], &[], None)]);
    match ex.export(&b("RUST"), &None, &None) {
        Ok(ExportAction::Persist(files)) => {
            assert_eq!(files.len(), 1);
            assert_eq!(files[0].lines, lines(&["x"]));
        }
        other => panic!("unexpected export result: {:?}", other.is_ok()),
    }
}
