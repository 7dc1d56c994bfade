use docscan::dispatch::Registry;
use docscan::dispatch::batch_failed;
use docscan::dispatch::process;
use docscan::dispatch::run_batch;
use docscan::errors::Error;

const SAMPLE: &str = "noise\nTABLE OF CONTENTS\n1. Intro....5\n2. Setup....12\n\nend";

fn chunks_of(parts: &[&str]) -> Vec<String> {
    parts.iter().map(|p| p.to_string()).collect()
}

#[test]
fn process_yields_combined_findings() {
    let mut registry = Registry::new().unwrap();
    let chunks = chunks_of(&["uses RSA-2048\n", SAMPLE]);
    let findings = process(&mut registry, &chunks).unwrap();
    assert_eq!(findings.table_of_contents.len(), 2);
    assert_eq!(findings.table_of_contents[0].index.as_str(), "1");
    assert_eq!(findings.versions.rsa, vec!["RSA 2048".to_string()]);
    assert!(findings.versions.eal.is_empty());
}

#[test]
fn process_is_isolated_per_document() {
    let mut registry = Registry::new().unwrap();
    let first = process(&mut registry, &chunks_of(&[SAMPLE, "RSA-2048"])).unwrap();
    assert_eq!(first.table_of_contents.len(), 2);
    // the next document starts from cleared analyzers: nothing leaks over
    let second = process(&mut registry, &chunks_of(&["quiet text"])).unwrap();
    assert!(second.table_of_contents.is_empty());
    assert!(second.versions.rsa.is_empty());
}

#[test]
fn batch_skips_directory_and_keeps_valid_path() {
    let mut registry = Registry::new().unwrap();
    let docs: Vec<Result<Vec<String>, Error>> = vec![
        Err(Error::IsADirectory),
        Ok(chunks_of(&[SAMPLE])),
    ];
    let results = run_batch(&mut registry, &docs);
    assert_eq!(results.len(), 2);
    match &results[0] {
        Err(e) => assert_eq!(*e, Error::IsADirectory),
        Ok(_) => panic!("a directory path must report failure"),
    }
    let good = results[1].as_ref().unwrap();
    assert_eq!(good.table_of_contents.len(), 2);
    assert_eq!(good.table_of_contents[1].title.as_str(), "Setup");
    assert!(good.versions.rsa.is_empty());
    assert!(batch_failed(&results));
}

#[test]
fn batch_without_failure_reports_none() {
    let mut registry = Registry::new().unwrap();
    let docs: Vec<Result<Vec<String>, Error>> = vec![Ok(chunks_of(&["plain text"]))];
    let results = run_batch(&mut registry, &docs);
    assert!(!batch_failed(&results));
}

#[test]
fn empty_document_yields_empty_but_complete_result() {
    let mut registry = Registry::new().unwrap();
    let findings = process(&mut registry, &Vec::new()).unwrap();
    assert!(findings.table_of_contents.is_empty());
    assert!(findings.versions.eal.is_empty());
    assert!(findings.versions.rsa.is_empty());
    assert!(findings.versions.sha.is_empty());
    assert!(findings.versions.des.is_empty());
    assert!(findings.versions.ecc.is_empty());
    assert!(findings.versions.java_card.is_empty());
    assert!(findings.versions.global_platform.is_empty());
}
