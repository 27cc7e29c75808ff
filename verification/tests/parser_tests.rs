//! The block parser, driven through the parse session: directives, block
//! capture, inclusion requests, and the recursion guard.

use exorg::block::{LangMapping, SrcBlock};
use exorg::error::ErrorKind;
use exorg::parser::{ParseSession, ParseStep};

fn b(s: &str) -> Vec<u8> {
    s.as_bytes().to_vec()
}

fn lines(ls: &[&str]) -> Vec<Vec<u8>> {
    ls.iter().map(|s| b(s)).collect()
}

/// Parses a document that includes no other files.
fn parse_flat(ls: &[&str]) -> (Vec<SrcBlock>, Vec<LangMapping>) {
    let mut session = ParseSession::new(b("doc.org"), lines(ls));
    match session.advance().unwrap() {
        ParseStep::Done => {}
        _ => panic!("parser asked for a file"),
    }
    session.into_results()
}

#[test]
fn simple_block() {
    let (blocks, langs) = parse_flat(&[
        "prose before",
        "#+NAME: hello",
        "#+BEGIN_SRC rust",
        "fn main() {}",
        "#+END_SRC",
        "prose after",
    ]);
    assert_eq!(blocks.len(), 1);
    assert_eq!(blocks[0].name, b("hello"));
    assert_eq!(blocks[0].lang, b("rust"));
    assert_eq!(blocks[0].lines, lines(&["fn main() {}"]));
    assert!(blocks[0].dependencies.is_empty());
    assert!(blocks[0].filename.is_none());
    assert!(langs.is_empty());
}

#[test]
fn block_without_metadata_has_empty_tags() {
    let (blocks, _) = parse_flat(&["#+BEGIN_SRC", "x", "#+END_SRC"]);
    assert_eq!(blocks.len(), 1);
    assert_eq!(blocks[0].name, b(""));
    assert_eq!(blocks[0].lang, b(""));
}

#[test]
fn flags_are_skipped_in_metadata() {
    let (blocks, _) = parse_flat(&["#+BEGIN_SRC -n -i rust", "x", "#+END_SRC"]);
    assert_eq!(blocks[0].lang, b("rust"));
}

#[test]
fn tangle_key_sets_destination() {
    let (blocks, _) = parse_flat(&["#+BEGIN_SRC rust :tangle out.rs", "x", "#+END_SRC"]);
    assert_eq!(blocks[0].filename, Some(b("out.rs")));
}

#[test]
fn tangle_sentinels_leave_no_destination() {
    let (blocks, _) = parse_flat(&[
        "#+BEGIN_SRC rust :tangle yes",
        "x",
        "#+END_SRC",
        "#+BEGIN_SRC rust :tangle no",
        "y",
        "#+END_SRC",
    ]);
    assert_eq!(blocks[0].filename, None);
    assert_eq!(blocks[1].filename, None);
}

#[test]
fn deps_are_split_on_whitespace() {
    let (blocks, _) = parse_flat(&[
        "#+DEPS:  alpha   beta ",
        "#+BEGIN_SRC rust",
        "x",
        "#+END_SRC",
    ]);
    assert_eq!(blocks[0].dependencies, vec![b("alpha"), b("beta")]);
}

#[test]
fn later_deps_declaration_overwrites() {
    let (blocks, _) = parse_flat(&[
        "#+DEPS: old",
        "#+DEPS: new",
        "#+BEGIN_SRC rust",
        "x",
        "#+END_SRC",
    ]);
    assert_eq!(blocks[0].dependencies, vec![b("new")]);
}

#[test]
fn name_is_trimmed() {
    let (blocks, _) = parse_flat(&["#+NAME:   padded  ", "#+BEGIN_SRC rust", "x", "#+END_SRC"]);
    assert_eq!(blocks[0].name, b("padded"));
}

#[test]
fn pending_state_clears_after_block() {
    let (blocks, _) = parse_flat(&[
        "#+NAME: first",
        "#+DEPS: d",
        "#+BEGIN_SRC rust :tangle f.rs",
        "x",
        "#+END_SRC",
        "#+BEGIN_SRC rust",
        "y",
        "#+END_SRC",
    ]);
    assert_eq!(blocks[1].name, b(""));
    assert!(blocks[1].dependencies.is_empty());
    assert_eq!(blocks[1].filename, None);
}

#[test]
fn src_lang_declares_mapping() {
    let (_, langs) = parse_flat(&["#+SRC_LANG: mylang ml2"]);
    assert_eq!(langs.len(), 1);
    assert_eq!(langs[0].lang, b("mylang"));
    assert_eq!(langs[0].suffix, b("ml2"));
}

#[test]
fn src_lang_missing_suffix_gets_sentinel() {
    let (_, langs) = parse_flat(&["#+SRC_LANG: mylang"]);
    assert_eq!(langs[0].lang, b("mylang"));
    assert_eq!(langs[0].suffix, b("fail"));
}

#[test]
fn unterminated_block_is_dropped() {
    let (blocks, _) = parse_flat(&["#+BEGIN_SRC rust", "never closed"]);
    assert_eq!(blocks.len(), 0);
}

#[test]
fn lines_outside_blocks_are_ignored() {
    let (blocks, _) = parse_flat(&["just prose", "more prose"]);
    assert_eq!(blocks.len(), 0);
}

#[test]
fn document_inclusion_merges_blocks() {
    let mut session = ParseSession::new(
        b("doc.org"),
        lines(&[
            "#+BEGIN_SRC rust",
            "before",
            "#+END_SRC",
            "#+INCLUDE: other.org",
            "#+BEGIN_SRC rust",
            "after",
            "#+END_SRC",
        ]),
    );
    match session.advance().unwrap() {
        ParseStep::NeedDocument { path } => assert_eq!(path, b("other.org")),
        _ => panic!("expected a document request"),
    }
    session.supply_document(lines(&["#+BEGIN_SRC rust", "included", "#+END_SRC"]));
    match session.advance().unwrap() {
        ParseStep::Done => {}
        _ => panic!("expected the parse to finish"),
    }
    let (blocks, _) = session.into_results();
    let all: Vec<Vec<u8>> = blocks.iter().map(|blk| blk.lines[0].clone()).collect();
    assert_eq!(all, vec![b("before"), b("included"), b("after")]);
}

#[test]
fn verbatim_inclusion_builds_one_block() {
    let mut session = ParseSession::new(
        b("doc.org"),
        lines(&["#+NAME: imported", "#+INCLUDE: body.py src python :tangle out.py"]),
    );
    match session.advance().unwrap() {
        ParseStep::NeedVerbatim { path } => assert_eq!(path, b("body.py")),
        _ => panic!("expected a verbatim request"),
    }
    session.supply_verbatim(lines(&["print(1)", "print(2)"]));
    match session.advance().unwrap() {
        ParseStep::Done => {}
        _ => panic!("expected the parse to finish"),
    }
    let (blocks, _) = session.into_results();
    assert_eq!(blocks.len(), 1);
    assert_eq!(blocks[0].name, b("imported"));
    assert_eq!(blocks[0].lang, b("python"));
    assert_eq!(blocks[0].lines, lines(&["print(1)", "print(2)"]));
    assert_eq!(blocks[0].filename, Some(b("out.py")));
}

#[test]
fn inert_inclusion_clears_pending_name() {
    let (blocks, _) = parse_flat(&[
        "#+NAME: gone",
        "#+INCLUDE: some.org weird shape",
        "#+BEGIN_SRC rust",
        "x",
        "#+END_SRC",
    ]);
    assert_eq!(blocks.len(), 1);
    assert_eq!(blocks[0].name, b(""));
}

#[test]
fn self_inclusion_fails_fast() {
    let mut session = ParseSession::new(b("a.org"), lines(&["#+INCLUDE: b.org"]));
    match session.advance().unwrap() {
        ParseStep::NeedDocument { path } => assert_eq!(path, b("b.org")),
        _ => panic!("expected a document request"),
    }
    session.supply_document(lines(&["#+INCLUDE: a.org"]));
    let r = session.advance();
    assert!(matches!(r, Err(ErrorKind::RecursiveInclusion)));
}

#[test]
fn error_messages_are_fixed() {
    assert_eq!(
        ErrorKind::CodeBlockNotFound.message(),
        "specified code block not found"
    );
    assert_eq!(
        ErrorKind::AmbiguousCodeBlockName.message(),
        "multiple code blocks match given name"
    );
    assert_eq!(
        ErrorKind::UnsatisfiableDependencies.message(),
        "dependencies can't be satisfied"
    );
    assert_eq!(ErrorKind::RecursiveInclusion.message(), "document includes itself");
    assert_eq!(ErrorKind::FileOpenError.message(), "file could not be opened");
    assert_eq!(ErrorKind::FileReadError.message(), "file could not be read");
    assert_eq!(ErrorKind::FileCreationError.message(), "file could not be created");
    assert_eq!(ErrorKind::FileWriteError.message(), "file could not be written");
    assert_eq!(
        ErrorKind::ExternalToolFailed.message(),
        "calling an external tool failed"
    );
}

#[test]
fn deeper_inclusion_of_a_fresh_path_is_fine() {
    let mut session = ParseSession::new(b("a.org"), lines(&["#+INCLUDE: b.org"]));
    match session.advance().unwrap() {
        ParseStep::NeedDocument { path } => assert_eq!(path, b("b.org")),
        _ => panic!("expected a document request"),
    }
    session.supply_document(lines(&["#+INCLUDE: c.org"]));
    match session.advance().unwrap() {
        ParseStep::NeedDocument { path } => assert_eq!(path, b("c.org")),
        _ => panic!("expected a document request"),
    }
    session.supply_document(lines(&["#+BEGIN_SRC rust", "deep", "#+END_SRC"]));
    match session.advance().unwrap() {
        ParseStep::Done => {}
        _ => panic!("expected the parse to finish"),
    }
    let (blocks, _) = session.into_results();
    assert_eq!(blocks.len(), 1);
    assert_eq!(blocks[0].lines, lines(&["deep"]));
}
