use code_indexer::chunker::{chunk_by_lines, hash_content, normalize_boundaries};
use code_indexer::syntax::{source_text, utf8_text};
use code_indexer::text::string_from_chars;
use code_indexer::types::Language;

#[test]
fn hash_content_is_hex_sha256_of_utf8() {
    assert_eq!(
        hash_content(""),
        "e3b0c44298fc1c149afbf4c8996fb92427ae41e4649b934ca495991b7852b855"
    );
    assert_eq!(
        hash_content("abc"),
        "ba7816bf8f01cfea414140de5dae2223b00361a396177a9cb410ff61f20015ad"
    );
    assert_eq!(hash_content("héllo").len(), 64);
    assert_ne!(hash_content("a"), hash_content("b"));
}

#[test]
fn boundaries_are_sorted_unique_and_start_at_zero() {
    assert_eq!(normalize_boundaries(&[5, 2, 5, 9]), vec![0, 2, 5, 9]);
    assert_eq!(normalize_boundaries(&[]), vec![0]);
    assert_eq!(normalize_boundaries(&[0, 0]), vec![0]);
}

#[test]
fn one_chunk_without_boundaries() {
    let chunks = chunk_by_lines("a\nb\nc\n", "f.rs", Language::Rust, &[]);
    assert_eq!(chunks.len(), 1);
    assert_eq!(chunks[0].content, "a\nb\nc");
    assert_eq!(chunks[0].line_start, 1);
    assert_eq!(chunks[0].line_end, 3);
    assert_eq!(chunks[0].preamble, "f.rs:1-3 [rust]");
    assert_eq!(chunks[0].content_hash, hash_content("a\nb\nc"));
    assert_eq!(chunks[0].file_path, "f.rs");
}

#[test]
fn small_sections_merge_with_the_next() {
    // Each section is tiny, so a section absorbs the one after it.
    let chunks = chunk_by_lines("a\nb\nc\nd\n", "f.ts", Language::TypeScript, &[1, 2, 3]);
    assert_eq!(chunks.len(), 2);
    assert_eq!((chunks[0].line_start, chunks[0].line_end), (1, 2));
    assert_eq!((chunks[1].line_start, chunks[1].line_end), (3, 4));
    assert_eq!(chunks[1].content, "c\nd");
    assert_eq!(chunks[1].preamble, "f.ts:3-4 [typescript]");
}

#[test]
fn large_sections_stay_apart() {
    let big = "x".repeat(1700);
    let source = format!("{big}\n{big}\n{big}\n");
    let chunks = chunk_by_lines(&source, "big.rs", Language::Rust, &[1, 2]);
    assert_eq!(chunks.len(), 3);
    for (k, c) in chunks.iter().enumerate() {
        assert_eq!(c.line_start, k + 1);
        assert_eq!(c.line_end, k + 1);
        assert_eq!(c.content.len(), 1700);
    }
}

#[test]
fn boundaries_past_the_end_are_ignored() {
    let chunks = chunk_by_lines("a\nb", "f.rs", Language::Rust, &[7, 1]);
    assert_eq!(chunks.len(), 1);
    assert_eq!(chunks[0].line_end, 2);
}

#[test]
fn empty_text_has_no_chunks() {
    assert!(chunk_by_lines("", "f.rs", Language::Rust, &[0, 3]).is_empty());
}

#[test]
fn crlf_lines_follow_str_lines() {
    let chunks = chunk_by_lines("a\r\nb\r\n", "f.rs", Language::Rust, &[]);
    assert_eq!(chunks[0].content, "a\nb");
    assert_eq!(chunks[0].line_end, 2);
}

#[test]
fn text_conversions() {
    assert_eq!(utf8_text(b"abc").as_deref(), Some("abc"));
    assert_eq!(utf8_text(&[0xff, 0xfe]), None);
    assert_eq!(source_text(b"fn a() {}"), "fn a() {}");
    assert_eq!(string_from_chars(&['a', 'b']), "ab");
}

#[test]
fn chunking_depends_on_the_boundary_set_alone() {
    let source = "a\nb\nc\nd\ne\n";
    let x = chunk_by_lines(source, "f.rs", Language::Rust, &[3, 1, 3, 0]);
    let y = chunk_by_lines(source, "f.rs", Language::Rust, &normalize_boundaries(&[3, 1, 3, 0]));
    let z = chunk_by_lines(source, "f.rs", Language::Rust, &[1, 3]);
    let spans = |v: &Vec<code_indexer::types::Chunk>| -> Vec<(usize, usize)> {
        v.iter().map(|c| (c.line_start, c.line_end)).collect()
    };
    assert_eq!(spans(&x), spans(&y));
    assert_eq!(spans(&x), spans(&z));
    assert_eq!(x.iter().map(|c| c.content.clone()).collect::<Vec<_>>(), z.iter().map(|c| c.content.clone()).collect::<Vec<_>>());
}

#[test]
fn boundaries_past_the_last_line_change_nothing() {
    let source: String = (0..300).map(|i| format!("line number {:04} of text\n", i)).collect();
    let a = chunk_by_lines(&source, "f.rs", Language::Rust, &[100, 200, 300, 5000]);
    let b = chunk_by_lines(&source, "f.rs", Language::Rust, &[200, 0, 100, 400, 100]);
    let view = |cs: &Vec<code_indexer::types::Chunk>| -> Vec<(usize, usize, String, String, String)> {
        cs.iter()
            .map(|c| (c.line_start, c.line_end, c.content.clone(), c.preamble.clone(), c.content_hash.clone()))
            .collect()
    };
    assert_eq!(view(&a), view(&b));
    assert_eq!(a.first().unwrap().line_start, 1);
    assert_eq!(a.last().unwrap().line_end, 300);
    let short = chunk_by_lines("a\nb\n", "f.rs", Language::Rust, &[2, 9]);
    let none = chunk_by_lines("a\nb\n", "f.rs", Language::Rust, &[]);
    assert_eq!(view(&short), view(&none));
}

#[test]
fn at_most_one_chunk_per_boundary_on_a_line() {
    let big = "y".repeat(1700);
    let source = format!("{big}\n{big}\n{big}\n");
    // Distinct boundaries below the line count: 0, 1 and 2.
    let chunks = chunk_by_lines(&source, "big.rs", Language::Rust, &[2, 1, 2, 3, 40]);
    assert_eq!(chunks.len(), 3);
    // Only line 0 falls on a line here.
    assert_eq!(chunk_by_lines(&source, "big.rs", Language::Rust, &[3, 40]).len(), 1);
}
