use sessionfs::lines::find_line_ranges;
use sessionfs::lines::find_line_starts;

#[test]
fn test_find_line_ranges_empty() {
    let data = b"";
    let ranges = find_line_ranges(data);
    assert!(ranges.is_empty());
}

#[test]
fn test_find_line_ranges_single_line_no_newline() {
    let data = b"hello world";
    let ranges = find_line_ranges(data);
    assert_eq!(ranges, vec![(0, 11)]);
}

#[test]
fn test_find_line_ranges_single_line_with_newline() {
    let data = b"hello world\n";
    let ranges = find_line_ranges(data);
    assert_eq!(ranges, vec![(0, 11)]);
}

#[test]
fn test_find_line_ranges_multiple_lines() {
    let data = b"line1\nline2\nline3";
    let ranges = find_line_ranges(data);
    assert_eq!(ranges, vec![(0, 5), (6, 11), (12, 17)]);
}

#[test]
fn test_find_line_ranges_with_empty_lines() {
    let data = b"line1\n\nline3\n";
    let ranges = find_line_ranges(data);
    // Empty lines are skipped (start == end after newline)
    assert_eq!(ranges, vec![(0, 5), (7, 12)]);
}

#[test]
fn test_find_line_ranges_only_newlines() {
    let data = b"\n\n\n";
    let ranges = find_line_ranges(data);
    assert!(ranges.is_empty());
}

#[test]
fn test_find_line_starts_empty() {
    let data = b"";
    let starts = find_line_starts(data);
    assert_eq!(starts, vec![0]);
}

#[test]
fn test_find_line_starts_single_line() {
    let data = b"hello";
    let starts = find_line_starts(data);
    assert_eq!(starts, vec![0]);
}

#[test]
fn test_find_line_starts_multiple_lines() {
    let data = b"line1\nline2\nline3";
    let starts = find_line_starts(data);
    assert_eq!(starts, vec![0, 6, 12]);
}

#[test]
fn test_line_ranges_concatenation_is_buffer_without_newlines() {
    let data = b"alpha\n\nbe-ta\ngamma";
    let ranges = find_line_ranges(data);
    let mut glued: Vec<u8> = Vec::new();
    for (s, e) in &ranges {
        glued.extend_from_slice(&data[*s..*e]);
    }
    let stripped: Vec<u8> = data.iter().copied().filter(|b| *b != b'\n').collect();
    assert_eq!(glued, stripped);
    for (s, e) in &ranges {
        assert!(s < e);
    }
}

#[test]
fn test_line_ranges_no_trailing_newline_last_range_ends_at_len() {
    let data = b"one\ntwo\nthree";
    let ranges = find_line_ranges(data);
    assert_eq!(ranges.last().unwrap().1, data.len());
}
