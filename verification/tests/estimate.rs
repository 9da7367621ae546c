use sessionfs::estimate_message_count_from_size;

#[test]
fn test_estimate_message_count_zero_size() {
    // Minimum should be 1
    let result = estimate_message_count_from_size(0);
    assert_eq!(result, 1);
}

#[test]
fn test_estimate_message_count_small_file() {
    // 500 bytes -> ceil(0.5) = 1
    let result = estimate_message_count_from_size(500);
    assert_eq!(result, 1);
}

#[test]
fn test_estimate_message_count_medium_file() {
    // 2500 bytes -> ceil(2.5) = 3
    let result = estimate_message_count_from_size(2500);
    assert_eq!(result, 3);
}

#[test]
fn test_estimate_message_count_large_file() {
    // 10000 bytes -> ceil(10.0) = 10
    let result = estimate_message_count_from_size(10000);
    assert_eq!(result, 10);
}

#[test]
fn test_estimate_message_count_exact_boundary() {
    // 1000 bytes -> ceil(1.0) = 1
    let result = estimate_message_count_from_size(1000);
    assert_eq!(result, 1);
}

#[test]
fn test_estimate_message_count_just_over_boundary() {
    let result = estimate_message_count_from_size(1001);
    assert_eq!(result, 2);
}
