use big_text::criteria::{Ratio, Selection};
use big_text::processor::{create_processor, Checked, FileProcessor, PreCheck};
use big_text::CriteriaArg;

fn ratio(num: u64, den: u64) -> Ratio {
    Ratio { num, den }
}

fn pseudo_random_bytes(n: usize) -> Vec<u8> {
    let mut state: u64 = 0x853c49e6748fea9b;
    let mut data = Vec::with_capacity(n);
    for _ in 0..n {
        state = state
            .wrapping_mul(6364136223846793005)
            .wrapping_add(1442695040888963407);
        data.push((state >> 33) as u8);
    }
    data
}

#[test]
fn text_window_selects() {
    let mut p = create_processor(100, 65536, 2, CriteriaArg::Text, ratio(3, 4));
    let sel = p.is_candidate_file(b"hello world\nplain text only\t\r\n").unwrap();
    assert_eq!(sel, Selection::Select(None));
}

#[test]
fn text_rejects_binary_byte() {
    let mut p = create_processor(100, 65536, 2, CriteriaArg::Text, ratio(3, 4));
    let sel = p.is_candidate_file(b"looks like text until\x00here").unwrap();
    assert_eq!(sel, Selection::Ignore);
}

#[test]
fn text_ignores_bytes_beyond_block_size() {
    // The disqualifying byte sits outside the four-byte window, so it is
    // never inspected.
    let mut p = create_processor(100, 4, 2, CriteriaArg::Text, ratio(3, 4));
    let sel = p.is_candidate_file(b"abcd\x00").unwrap();
    assert_eq!(sel, Selection::Select(None));
}

#[test]
fn text_stops_at_first_disqualifying_chunk() {
    let mut p = create_processor(100, 65536, 2, CriteriaArg::Text, ratio(3, 4));
    p.begin_file();
    let step = p.feed(b"\x00rest of the file need not be read").unwrap();
    assert!(!step.more);
    let sel = p.finalize_file().unwrap();
    assert_eq!(sel, Selection::Ignore);
}

#[test]
fn driver_consumes_at_most_block_size() {
    let mut p = create_processor(100, 4, 2, CriteriaArg::Text, ratio(3, 4));
    p.begin_file();
    assert!(p.has_budget());
    let step = p.feed(b"abcdef").unwrap();
    assert_eq!(step.consumed, 4);
    assert!(!step.more);
    assert!(!p.has_budget());
}

#[test]
fn driver_feed_in_pieces_matches_single_window() {
    let mut p = create_processor(100, 65536, 2, CriteriaArg::Text, ratio(3, 4));
    p.begin_file();
    let step = p.feed(b"first half ").unwrap();
    assert!(step.more);
    assert_eq!(step.consumed, 11);
    let step = p.feed(b"second half").unwrap();
    assert!(step.more);
    let split_result = p.finalize_file().unwrap();
    let whole_result = p.is_candidate_file(b"first half second half").unwrap();
    assert_eq!(split_result, whole_result);
}

#[test]
fn deflate_zeros_selected_with_tiny_ratio() {
    let mut p = create_processor(100, 65536, 2, CriteriaArg::Deflate, ratio(3, 4));
    let zeros = vec![0u8; 65536];
    let sel = p.is_candidate_file(&zeros).unwrap();
    match sel {
        Selection::Select(Some(est)) => {
            // Highly repetitive input deflates to no more than a tenth.
            assert_eq!(est.den, 65536);
            assert!(est.num * 10 <= est.den);
        }
        other => panic!("expected a selection with a ratio, got {:?}", other),
    }
}

#[test]
fn deflate_random_ignored() {
    let mut p = create_processor(100, 65536, 2, CriteriaArg::Deflate, ratio(3, 4));
    let noise = pseudo_random_bytes(65536);
    let sel = p.is_candidate_file(&noise).unwrap();
    assert_eq!(sel, Selection::Ignore);
}

#[test]
fn deflate_empty_file_ignored() {
    let mut p = create_processor(100, 65536, 2, CriteriaArg::Deflate, ratio(3, 4));
    let sel = p.is_candidate_file(b"").unwrap();
    assert_eq!(sel, Selection::Ignore);
}

#[test]
fn deflate_classification_idempotent() {
    let mut p = create_processor(100, 65536, 2, CriteriaArg::Deflate, ratio(3, 4));
    let zeros = vec![0u8; 4096];
    let first = p.is_candidate_file(&zeros).unwrap();
    let second = p.is_candidate_file(&zeros).unwrap();
    assert_eq!(first, second);
}

#[test]
fn text_classification_idempotent() {
    let mut p = create_processor(100, 65536, 2, CriteriaArg::Text, ratio(3, 4));
    let first = p.is_candidate_file(b"same bytes, same answer").unwrap();
    let second = p.is_candidate_file(b"same bytes, same answer").unwrap();
    assert_eq!(first, second);
}

#[test]
fn throttle_reports_transition_once() {
    let mut p = create_processor(10, 65536, 2, CriteriaArg::Text, ratio(3, 4));
    let ext = b"bin".to_vec();
    let binary = b"not text\x00\x01\x02";
    let first = p.process(true, 100, Some(&ext), binary).unwrap();
    assert_eq!(first, Checked::Ignored);
    let second = p.process(true, 100, Some(&ext), binary).unwrap();
    assert_eq!(second, Checked::Ignored);
    let third = p.process(true, 100, Some(&ext), binary).unwrap();
    assert_eq!(third, Checked::IgnoredExt(b"bin".to_vec()));
}

#[test]
fn throttled_extension_skips_selectable_file() {
    let mut p = create_processor(10, 65536, 2, CriteriaArg::Text, ratio(3, 4));
    let ext = b"bin".to_vec();
    let binary = b"not text\x00\x01\x02";
    for _ in 0..3 {
        p.process(true, 100, Some(&ext), binary).unwrap();
    }
    // A sentinel file that would select on its content alone is skipped
    // without being read.
    assert_eq!(p.pre_check(true, 100, Some(&ext)), PreCheck::Throttled);
    let fourth = p.process(true, 100, Some(&ext), b"pure text sentinel").unwrap();
    assert_eq!(fourth, Checked::Ignored);
}

#[test]
fn single_selection_resets_extension_trust() {
    let mut p = create_processor(10, 65536, 2, CriteriaArg::Text, ratio(3, 4));
    let ext = b"log".to_vec();
    let binary = b"binary\x00content";
    let text = b"plain text content";
    // Two misses, then a success: the counter is gone entirely.
    p.process(true, 100, Some(&ext), binary).unwrap();
    p.process(true, 100, Some(&ext), binary).unwrap();
    let hit = p.process(true, 100, Some(&ext), text).unwrap();
    assert_eq!(hit, Checked::Candidate(100, None));
    // The count starts from scratch: two more misses stay quiet, the
    // third crosses the limit again.
    assert_eq!(p.process(true, 100, Some(&ext), binary).unwrap(), Checked::Ignored);
    assert_eq!(p.process(true, 100, Some(&ext), binary).unwrap(), Checked::Ignored);
    assert_eq!(
        p.process(true, 100, Some(&ext), binary).unwrap(),
        Checked::IgnoredExt(b"log".to_vec())
    );
}

#[test]
fn files_without_extension_never_throttled() {
    let mut p = create_processor(10, 65536, 0, CriteriaArg::Text, ratio(3, 4));
    let binary = b"binary\x00content";
    for _ in 0..5 {
        let out = p.process(true, 100, None, binary).unwrap();
        assert_eq!(out, Checked::Ignored);
    }
    let out = p.process(true, 100, None, b"plain text").unwrap();
    assert_eq!(out, Checked::Candidate(100, None));
}

#[test]
fn zero_check_limit_throttles_after_first_miss() {
    let mut p = create_processor(10, 65536, 0, CriteriaArg::Text, ratio(3, 4));
    let ext = b"jpg".to_vec();
    let binary = b"\xff\xd8\xff\xe0 not text";
    let first = p.process(true, 100, Some(&ext), binary).unwrap();
    assert_eq!(first, Checked::IgnoredExt(b"jpg".to_vec()));
    assert_eq!(p.pre_check(true, 100, Some(&ext)), PreCheck::Throttled);
}

#[test]
fn small_files_skipped_before_any_read() {
    // Too-small files never reach the classifier, whatever their content.
    let mut p = create_processor(1024, 65536, 2, CriteriaArg::Text, ratio(3, 4));
    let out = p.process(true, 1023, None, b"\x00would be ignored if read").unwrap();
    assert_eq!(out, Checked::TooSmall);
    assert_eq!(p.pre_check(true, 1023, None), PreCheck::TooSmall);
}

#[test]
fn non_files_reported_first() {
    let mut p = create_processor(1024, 65536, 2, CriteriaArg::Text, ratio(3, 4));
    let out = p.process(false, 999999999, None, b"irrelevant").unwrap();
    assert_eq!(out, Checked::NotFile);
}

#[test]
fn end_to_end_text_scan() {
    // A directory of one large text file, one small text file, and one
    // large file of noise, scanned with a one-gigabyte minimum.
    let gib: u64 = 1024 * 1024 * 1024;
    let mut p = create_processor(gib, 65536, 10, CriteriaArg::Text, ratio(3, 4));
    let big_text_body = b"line after line of plain log text\n".repeat(4096);
    let noise = pseudo_random_bytes(65536);

    let first = p
        .process(true, 2 * gib, Some(&b"log".to_vec()), &big_text_body)
        .unwrap();
    assert_eq!(first, Checked::Candidate(2 * gib, None));

    let second = p
        .process(true, 10 * 1024, Some(&b"txt".to_vec()), b"short but sweet\n")
        .unwrap();
    assert_eq!(second, Checked::TooSmall);

    let third = p.process(true, 2 * gib, Some(&b"dat".to_vec()), &noise).unwrap();
    assert_eq!(third, Checked::Ignored);
}

#[test]
fn default_processor_configuration() {
    let p = FileProcessor::new();
    assert_eq!(p.min_size, 1024 * 1024 * 1024);
    assert_eq!(p.block_size, 8 * 1024);
    assert_eq!(p.check_limit, 20);
    assert!(p.ignored_exts.is_empty());
}

#[test]
fn ratio_comparison_is_exact() {
    assert!(ratio(1, 10).le(ratio(3, 4)));
    assert!(!ratio(9, 10).le(ratio(3, 4)));
    assert!(ratio(3, 4).le(ratio(3, 4)));
    assert!(ratio(0, 5).le(ratio(0, 9)));
}
