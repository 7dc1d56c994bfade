use docscan::reader::ChunkOutcome;
use docscan::reader::carve_chunk;
use docscan::reader::incomplete_tail;
use docscan::text::normalize_plain;
use docscan::text::normalize_upper;
use docscan::text::normalize_upper_sep;
use docscan::text::parse_page;
use docscan::text::trim;

#[test]
fn trim_removes_blank_edges_only() {
    assert_eq!(trim("  a\nb \t ").as_str(), "a\nb");
    assert_eq!(trim("").as_str(), "");
    assert_eq!(trim(" \n\t").as_str(), "");
    assert_eq!(trim("x").as_str(), "x");
}

#[test]
fn normalize_plain_folds_line_breaks() {
    assert_eq!(normalize_plain(" a\nb ").as_str(), "a b");
    assert_eq!(normalize_plain("Triple-DES").as_str(), "Triple-DES");
}

#[test]
fn normalize_upper_folds_case_and_line_breaks_only() {
    assert_eq!(normalize_upper(" x\ny ").as_str(), "X Y");
    assert_eq!(normalize_upper("sha-256").as_str(), "SHA-256");
    assert_eq!(normalize_upper("eal_4").as_str(), "EAL_4");
}

#[test]
fn normalize_upper_sep_also_folds_separators() {
    assert_eq!(normalize_upper_sep(" x_y-z\n9 ").as_str(), "X Y Z 9");
    assert_eq!(normalize_upper_sep("rsa-2048").as_str(), "RSA 2048");
    assert_eq!(normalize_upper_sep("RSA 2048").as_str(), "RSA 2048");
}

#[test]
fn parse_page_defaults_to_zero() {
    assert_eq!(parse_page("12"), 12);
    assert_eq!(parse_page(""), 0);
    assert_eq!(parse_page("1 2"), 0);
    assert_eq!(parse_page("x9"), 0);
    assert_eq!(parse_page("4294967295"), 4294967295);
    assert_eq!(parse_page("4294967296"), 0);
    assert_eq!(parse_page("99999999999999999999"), 0);
}

#[test]
fn carve_keeps_incomplete_trailing_character() {
    // "abc" followed by the first two bytes of a three-byte character
    let buf: Vec<u8> = vec![0x61, 0x62, 0x63, 0xe2, 0x82];
    assert_eq!(incomplete_tail(&buf), 2);
    match carve_chunk(&buf, false) {
        ChunkOutcome::Chunk(text, carry) => {
            assert_eq!(text.as_str(), "abc");
            assert_eq!(carry, vec![0xe2, 0x82]);
        },
        ChunkOutcome::Invalid => panic!("valid prefix was refused"),
    }
}

#[test]
fn carve_at_stream_end_rejects_incomplete_character() {
    let buf: Vec<u8> = vec![0x61, 0xe2, 0x82];
    match carve_chunk(&buf, true) {
        ChunkOutcome::Chunk(..) => panic!("truncated character accepted at stream end"),
        ChunkOutcome::Invalid => {},
    }
}

#[test]
fn carve_rejects_invalid_bytes() {
    let buf: Vec<u8> = vec![0x61, 0xff, 0x62];
    match carve_chunk(&buf, false) {
        ChunkOutcome::Chunk(..) => panic!("invalid byte sequence accepted"),
        ChunkOutcome::Invalid => {},
    }
}

#[test]
fn carve_decodes_complete_buffer() {
    let euro = "a\u{20ac}b";
    let buf: Vec<u8> = euro.as_bytes().to_vec();
    assert_eq!(incomplete_tail(&buf), 0);
    match carve_chunk(&buf, false) {
        ChunkOutcome::Chunk(text, carry) => {
            assert_eq!(text.as_str(), euro);
            assert!(carry.is_empty());
        },
        ChunkOutcome::Invalid => panic!("valid buffer was refused"),
    }
}

#[test]
fn carve_empty_buffer() {
    let buf: Vec<u8> = Vec::new();
    match carve_chunk(&buf, true) {
        ChunkOutcome::Chunk(text, carry) => {
            assert_eq!(text.as_str(), "");
            assert!(carry.is_empty());
        },
        ChunkOutcome::Invalid => panic!("empty buffer was refused"),
    }
}
