use sigscan::pattern::{sig_scan, EXACT};
use sigscan::signature::Signature;

const X: u8 = b'x';
const W: u8 = b'?';

fn sample() -> Signature {
    Signature::new(vec![0xAA, 0x00, 0xBB], vec![X, W, X])
}

#[test]
fn exact_mask_byte_is_lowercase_x() {
    assert_eq!(EXACT, b'x');
}

#[test]
fn wildcard_position_is_skipped() {
    let haystack = [0x11, 0xAA, 0xFF, 0xBB, 0x22];
    assert_eq!(sample().scan(&haystack), Some(1));
    assert_eq!(sig_scan(&haystack, &[0xAA, 0x00, 0xBB], &[X, W, X]), Some(1));
}

#[test]
fn haystack_shorter_than_pattern_finds_nothing() {
    assert_eq!(sample().scan(&[0x11, 0x22]), None);
    assert_eq!(sig_scan(&[0xAA], &[0xAA, 0xBB], &[X, X]), None);
    assert_eq!(sig_scan(&[], &[0xAA], &[W]), None);
}

#[test]
fn haystack_without_the_pattern_finds_nothing() {
    assert_eq!(sample().scan(&[0x11, 0x22, 0x33]), None);
    assert_eq!(sample().scan(&[0xAA, 0x00, 0xBC, 0xAB, 0x00, 0xBB]), None);
}

#[test]
fn empty_pattern_matches_at_offset_zero() {
    let empty = Signature::new(Vec::new(), Vec::new());
    assert_eq!(empty.scan(&[0x01, 0x02, 0x03]), Some(0));
    assert_eq!(empty.scan(&[0x7f]), Some(0));
    assert_eq!(sig_scan(&[9, 9], &[], &[]), Some(0));
}

#[test]
fn empty_pattern_matches_an_empty_haystack() {
    let empty = Signature::new(Vec::new(), Vec::new());
    assert_eq!(empty.scan(&[]), Some(0));
}

#[test]
fn lowest_offset_wins() {
    let sig = Signature::new(vec![1, 2], vec![X, X]);
    assert_eq!(sig.scan(&[0, 1, 2, 1, 2, 1, 2]), Some(1));
    assert_eq!(sig.scan(&[1, 2, 1, 2]), Some(0));
    assert_eq!(sig.scan(&[1, 1, 1, 2]), Some(2));
}

#[test]
fn match_at_the_very_end_is_found() {
    let sig = Signature::new(vec![7, 8, 9], vec![X, X, X]);
    assert_eq!(sig.scan(&[0, 0, 0, 7, 8, 9]), Some(3));
    assert_eq!(sig.scan(&[7, 8, 9]), Some(0));
    assert_eq!(sig.scan(&[0, 0, 0, 7, 8]), None);
}

#[test]
fn all_wildcards_match_at_offset_zero() {
    let sig = Signature::new(vec![1, 2, 3], vec![W, W, W]);
    assert_eq!(sig.scan(&[9, 9, 9, 9]), Some(0));
    assert_eq!(sig.scan(&[9, 9]), None);
}

#[test]
fn any_mask_byte_but_x_is_a_wildcard() {
    let haystack = [5, 6, 7];
    for m in 0..=255u8 {
        let found = sig_scan(&haystack, &[6, 0], &[X, m]);
        if m == X {
            assert_eq!(found, None);
        } else {
            assert_eq!(found, Some(1));
        }
    }
}

#[test]
fn wildcard_bytes_are_inert() {
    let haystack = [0x11, 0xAA, 0xFF, 0xBB, 0x22, 0xAA, 0x01, 0xBB];
    let expected = sample().scan(&haystack);
    assert_eq!(expected, Some(1));
    for b in 0..=255u8 {
        let sig = Signature::new(vec![0xAA, b, 0xBB], vec![X, W, X]);
        assert_eq!(sig.scan(&haystack), expected);
    }
}

#[test]
fn exact_bytes_are_not_inert() {
    let haystack = [0x11, 0xAA, 0xFF, 0xBB, 0x22];
    let sig = Signature::new(vec![0xAA, 0xFE, 0xBB], vec![X, X, X]);
    assert_eq!(sig.scan(&haystack), None);
}

#[test]
fn verbatim_pattern_is_found_at_its_smallest_offset() {
    let pattern = vec![3u8, 1, 4, 1, 5];
    let mask = vec![X, W, X, X, W];
    let sig = Signature::new(pattern.clone(), mask);
    for k in 0..6usize {
        let mut haystack = vec![0u8; k];
        haystack.extend_from_slice(&pattern);
        haystack.extend_from_slice(&[0, 0]);
        haystack.extend_from_slice(&pattern);
        assert_eq!(sig.scan(&haystack), Some(k));
    }
}

#[test]
fn mask_of_another_length_finds_nothing() {
    assert_eq!(sig_scan(&[1, 2, 3], &[1, 2], &[X]), None);
    assert_eq!(sig_scan(&[1, 2, 3], &[1], &[X, X]), None);
    assert_eq!(sig_scan(&[1, 2, 3], &[], &[W]), None);
}

#[test]
fn scanning_twice_gives_the_same_answer() {
    let sig = sample();
    let haystack = [0x11, 0xAA, 0xFF, 0xBB, 0x22];
    let first = sig.scan(&haystack);
    let second = sig.scan(&haystack);
    assert_eq!(first, second);
    let miss = [0u8; 16];
    assert_eq!(sig.scan(&miss), sig.scan(&miss));
}

#[test]
fn clone_searches_like_the_source() {
    let sig = sample();
    let copy = sig.clone();
    let haystack = [0x00, 0x00, 0xAA, 0x42, 0xBB];
    assert_eq!(sig.scan(&haystack), Some(2));
    assert_eq!(copy.scan(&haystack), Some(2));
}
