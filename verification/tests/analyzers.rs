use docscan::errors::Error;
use docscan::toc::ToCFinder;
use docscan::versions::VersionFinder;

const SAMPLE: &str = "noise\nTABLE OF CONTENTS\n1. Intro....5\n2. Setup....12\n\nend";

#[test]
fn toc_single_chunk_scenario() {
    let mut toc = ToCFinder::new();
    toc.process(SAMPLE).unwrap();
    let entries = toc.finalize();
    assert_eq!(entries.len(), 2);
    assert_eq!(entries[0].index.as_str(), "1");
    assert_eq!(entries[0].title.as_str(), "Intro");
    assert_eq!(entries[0].page, 5);
    assert_eq!(entries[1].index.as_str(), "2");
    assert_eq!(entries[1].title.as_str(), "Setup");
    assert_eq!(entries[1].page, 12);
}

#[test]
fn toc_text_after_blank_line_is_never_scanned() {
    let mut toc = ToCFinder::new();
    toc.process("x\nCONTENTS\n1. Intro....5\n\n9. Ghost....3").unwrap();
    let entries = toc.finalize();
    assert_eq!(entries.len(), 1);
    assert_eq!(entries[0].index.as_str(), "1");
    // nothing from after the end delimiter
    for e in &entries {
        assert_ne!(e.index.as_str(), "9");
        assert_ne!(e.title.as_str(), "Ghost");
    }
}

#[test]
fn toc_rechunk_same_result_when_no_match_is_split() {
    let mut toc = ToCFinder::new();
    toc.process(SAMPLE).unwrap();
    let whole = toc.finalize();

    toc.clear();
    toc.process("noise\nTABLE OF CONTENTS\n1. Intro....5\n").unwrap();
    toc.process("2. Setup....12\n\nend").unwrap();
    let split = toc.finalize();

    assert_eq!(whole.len(), split.len());
    for (a, b) in whole.iter().zip(split.iter()) {
        assert_eq!(a.index, b.index);
        assert_eq!(a.title, b.title);
        assert_eq!(a.page, b.page);
    }
}

#[test]
fn toc_split_mid_entry_does_not_recover_it() {
    let mut toc = ToCFinder::new();
    toc.process("noise\nTABLE OF CONTENTS\n1. Intro....5\n2. Set").unwrap();
    toc.process("up....12\n\nend").unwrap();
    let entries = toc.finalize();
    assert_eq!(entries[0].index.as_str(), "1");
    assert_eq!(entries[0].title.as_str(), "Intro");
    assert_eq!(entries[0].page, 5);
    // the broken entry is not recovered: no entry reads "2. Setup"
    for e in &entries {
        assert_ne!(e.index.as_str(), "2");
        assert_ne!(e.title.as_str(), "Setup");
    }
}

#[test]
fn toc_without_heading_extracts_nothing() {
    let mut toc = ToCFinder::new();
    toc.process("1. Intro....5\n2. Setup....12\n\n").unwrap();
    let entries = toc.finalize();
    assert!(entries.is_empty());
}

#[test]
fn toc_text_before_heading_is_never_scanned() {
    let mut toc = ToCFinder::new();
    toc.process("0. Early....9\nTABLE OF CONTENTS\n1. Intro....5\n\n").unwrap();
    let entries = toc.finalize();
    assert_eq!(entries.len(), 1);
    assert_eq!(entries[0].index.as_str(), "1");
}

#[test]
fn toc_clear_then_finalize_is_empty() {
    let mut toc = ToCFinder::new();
    toc.process(SAMPLE).unwrap();
    toc.clear();
    let entries = toc.finalize();
    assert!(entries.is_empty());
}

#[test]
fn toc_done_state_ignores_later_chunks() {
    let mut toc = ToCFinder::new();
    toc.process(SAMPLE).unwrap();
    toc.process("\nTABLE OF CONTENTS\n7. Late....9\n\n").unwrap();
    let entries = toc.finalize();
    assert_eq!(entries.len(), 2);
}

#[test]
fn toc_clear_reenables_scanning() {
    let mut toc = ToCFinder::new();
    toc.process(SAMPLE).unwrap();
    toc.clear();
    toc.process(SAMPLE).unwrap();
    let entries = toc.finalize();
    assert_eq!(entries.len(), 2);
}

#[test]
fn versions_clear_then_finalize_is_empty() {
    let mut vf = VersionFinder::new().unwrap();
    vf.process("RSA-2048 EAL4+ SHA-256 Triple-DES ECC-521 Java Card 3.0.4 GlobalPlatform 2.2.1")
        .unwrap();
    vf.clear();
    let found = vf.finalize();
    assert!(found.eal.is_empty());
    assert!(found.rsa.is_empty());
    assert!(found.sha.is_empty());
    assert!(found.des.is_empty());
    assert!(found.ecc.is_empty());
    assert!(found.java_card.is_empty());
    assert!(found.global_platform.is_empty());
}

#[test]
fn versions_dedup_across_two_chunks() {
    let mut vf = VersionFinder::new().unwrap();
    vf.process("see RSA-2048 here").unwrap();
    vf.process("and rsa 2048 again").unwrap();
    let found = vf.finalize();
    assert_eq!(found.rsa.len(), 1);
    assert_eq!(found.rsa[0].as_str(), "RSA 2048");
}

#[test]
fn versions_category_normalization() {
    let mut vf = VersionFinder::new().unwrap();
    vf.process("rsa-2048").unwrap();
    vf.process("RSA 2048").unwrap();
    let found = vf.finalize();
    assert_eq!(found.rsa.len(), 1);
    assert_eq!(found.rsa[0].as_str(), "RSA 2048");

    // the DES category preserves the source casing of qualifier words
    let mut vf2 = VersionFinder::new().unwrap();
    vf2.process("protected by Triple-DES").unwrap();
    let found2 = vf2.finalize();
    assert_eq!(found2.des.len(), 1);
    assert_eq!(found2.des[0].as_str(), "Triple-DES");
}

#[test]
fn versions_collects_each_category() {
    let mut vf = VersionFinder::new().unwrap();
    vf.process("EAL5+ with sha-256, ECC 521, Java Card 3.0.4 and GlobalPlatform 2.2.1")
        .unwrap();
    let found = vf.finalize();
    assert_eq!(found.eal, vec!["EAL5+".to_string()]);
    assert_eq!(found.sha, vec!["SHA-256".to_string()]);
    assert_eq!(found.ecc, vec!["ECC 521".to_string()]);
    assert_eq!(found.java_card, vec!["Java Card 3.0.4".to_string()]);
    assert_eq!(found.global_platform, vec!["GlobalPlatform 2.2.1".to_string()]);
}

#[test]
fn versions_separator_fold_is_confined_to_rsa() {
    // rsa identifies differently separated spellings of one key size
    let mut vf = VersionFinder::new().unwrap();
    vf.process("rsa-2048 and rsa 2048").unwrap();
    let found = vf.finalize();
    assert_eq!(found.rsa, vec!["RSA 2048".to_string()]);

    // sha keeps the separator as written, as the other categories do
    let mut vf2 = VersionFinder::new().unwrap();
    vf2.process("sha-256 and sha 256").unwrap();
    let found2 = vf2.finalize();
    assert_eq!(found2.sha.len(), 2);
    assert!(found2.sha.contains(&"SHA-256".to_string()));
    assert!(found2.sha.contains(&"SHA 256".to_string()));
}

#[test]
fn versions_match_folded_to_one_line() {
    let mut vf = VersionFinder::new().unwrap();
    vf.process("rsa\n2048").unwrap();
    let found = vf.finalize();
    assert_eq!(found.rsa.len(), 1);
    assert_eq!(found.rsa[0].as_str(), "RSA 2048");
}

#[test]
fn versions_finalize_drains() {
    let mut vf = VersionFinder::new().unwrap();
    vf.process("RSA-2048").unwrap();
    let first = vf.finalize();
    assert_eq!(first.rsa.len(), 1);
    let second = vf.finalize();
    assert!(second.rsa.is_empty());
}

#[test]
fn error_values_compare() {
    assert_eq!(Error::IsADirectory, Error::IsADirectory);
    assert_ne!(Error::Io, Error::Utf8Conversion);
}
