use otp_search::search::{
    starting_secret, try_choose_secret, try_find, verify_target_token, JOB_STRIDE,
};
use otp_search::secret::{encode, increment, SECRET_LEN};
use totp_rs::{Algorithm, TOTP};

fn code_of(secret: &[u8], digits: usize, time: u64) -> String {
    TOTP::new(Algorithm::SHA1, digits, 1, 30, secret.to_vec(), None, "".to_string())
        .unwrap()
        .generate(time)
}

#[test]
fn generator_matches_published_vectors() {
    let secret = b"12345678901234567890";
    let vectors: [(u64, &str); 6] = [
        (59, "94287082"),
        (1111111109, "07081804"),
        (1111111111, "14050471"),
        (1234567890, "89005924"),
        (2000000000, "69279037"),
        (20000000000, "65353130"),
    ];
    for (time, expected) in vectors {
        assert_eq!(code_of(secret, 8, time), expected);
    }
}

#[test]
fn reference_vector_at_time_59() {
    assert_eq!(code_of(b"12345678901234567890", 8, 59), "94287082");
}

#[test]
fn token_validation() {
    assert!(verify_target_token("123456"));
    assert!(verify_target_token("1234567"));
    assert!(verify_target_token("12345678"));
    assert!(verify_target_token("000000"));
    assert!(!verify_target_token(""));
    assert!(!verify_target_token("12345"));
    assert!(!verify_target_token("123456789"));
    assert!(!verify_target_token("12345a"));
    assert!(!verify_target_token("12 456"));
    assert!(!verify_target_token("１２３４５６"));
}

#[test]
fn invalid_token_fails_before_search() {
    assert_eq!(
        try_find(59, "12345".to_string(), 4, 0, 1000, 0),
        Err("Invalid target token".to_string())
    );
    assert_eq!(
        try_find(59, "12a456".to_string(), 4, 0, 1000, 0),
        Err("Invalid target token".to_string())
    );
}

#[test]
fn out_of_range_plan_is_an_error() {
    assert_eq!(
        try_find(59, "123456".to_string(), 4, usize::MAX, 1000, 0),
        Err("Search range overflow".to_string())
    );
    assert_eq!(
        try_find(59, "123456".to_string(), 1, 0, 1, usize::MAX),
        Err("Search range overflow".to_string())
    );
}

#[test]
fn no_threads_find_nothing() {
    assert_eq!(try_find(59, "123456".to_string(), 0, 0, 1000, 0), Ok(None));
}

#[test]
fn encode_little_endian() {
    let zero = encode(0);
    assert_eq!(zero, vec![0u8; SECRET_LEN]);
    let mut expected = vec![0u8; SECRET_LEN];
    expected[0] = 0x34;
    expected[1] = 0x12;
    assert_eq!(encode(0x1234), expected);
    let max = encode(u64::MAX);
    assert_eq!(&max[..8], &[0xFFu8; 8]);
    assert_eq!(&max[8..], &[0u8; 12]);
}

#[test]
fn increment_carries() {
    let mut s = vec![0u8; SECRET_LEN];
    s[0] = 0xFF;
    increment(&mut s);
    let mut expected = vec![0u8; SECRET_LEN];
    expected[1] = 1;
    assert_eq!(s, expected);

    let mut t = encode(41);
    increment(&mut t);
    assert_eq!(t, encode(42));
}

#[test]
fn increment_wraps_to_zero() {
    let mut s = vec![0xFFu8; SECRET_LEN];
    increment(&mut s);
    assert_eq!(s, vec![0u8; SECRET_LEN]);
}

#[test]
fn partition_starts_for_four_threads() {
    for thread_id in 0..4usize {
        assert_eq!(starting_secret(thread_id, 0, 1000, 4), encode(thread_id as u64 * 1000));
    }
    let mut expected = vec![0u8; SECRET_LEN];
    expected[0] = 0xE8;
    expected[1] = 0x03;
    assert_eq!(starting_secret(1, 0, 1000, 4), expected);
    assert_eq!(starting_secret(0, 1, 1000, 4), encode(4000));
}

#[test]
fn thread_covers_open_closed_range() {
    // Thread 1 of 4 with 1000 iterations scans (1000, 2000].
    let top = encode(2000);
    let token = code_of(&top, 8, 59);
    let found = try_choose_secret(59, &token, 4, 1, 0, 1000).unwrap().unwrap();
    assert_eq!(code_of(&found, 8, 59), token);

    // The value 1000 is the top of thread 0's range, not part of thread 1's.
    let bottom = encode(1000);
    let token = code_of(&bottom, 8, 59);
    let by_thread_0 = try_choose_secret(59, &token, 4, 0, 0, 1000).unwrap().unwrap();
    assert_eq!(code_of(&by_thread_0, 8, 59), token);
    if let Ok(Some(s)) = try_choose_secret(59, &token, 4, 1, 0, 1000) {
        assert_ne!(s, bottom);
    }
}

#[test]
fn search_recovers_a_covered_secret() {
    let secret = encode(2500);
    let token = code_of(&secret, 8, 59);
    let found = try_find(59, token.clone(), 4, 0, 1000, 0).unwrap().unwrap();
    assert_eq!(code_of(&found, 8, 59), token);
}

#[test]
fn search_is_deterministic() {
    let token = code_of(&encode(3100), 6, 90);
    let a = try_find(90, token.clone(), 4, 0, 1000, 0);
    let b = try_find(90, token.clone(), 4, 0, 1000, 0);
    assert_eq!(a, b);
    assert!(a.unwrap().is_some());
}

#[test]
fn job_id_offsets_attempts() {
    assert_eq!(JOB_STRIDE, 100000);
    let value = (100000 * 2 + 1) * 10 + 5;
    let token = code_of(&encode(value), 8, 59);
    let found = try_find(59, token.clone(), 2, 0, 10, 1).unwrap().unwrap();
    assert_eq!(code_of(&found, 8, 59), token);
}

#[test]
fn lowest_thread_wins() {
    // A six-digit code of the secret 3500 may also be given by a secret of
    // a lower thread; the answer is then that thread's, and always a match.
    let token = code_of(&encode(3500), 6, 59);
    let found = try_find(59, token.clone(), 4, 0, 1000, 0).unwrap().unwrap();
    assert_eq!(code_of(&found, 6, 59), token);
    let mut first: Option<Vec<u8>> = None;
    for thread_id in 0..4 {
        if let Ok(Some(s)) = try_choose_secret(59, &token, 4, thread_id, 0, 1000) {
            first = Some(s);
            break;
        }
    }
    assert_eq!(Some(found), first);
}

#[test]
fn scan_with_refused_digit_count_is_a_configuration_error() {
    let short = "12345".to_string();
    assert_eq!(
        try_choose_secret(59, &short, 4, 0, 0, 10),
        Err("Invalid configuration".to_string())
    );
    let long = "123456789".to_string();
    assert_eq!(
        try_choose_secret(59, &long, 4, 0, 0, 10),
        Err("Invalid configuration".to_string())
    );
}

#[test]
fn seven_digit_token_is_searched() {
    let token = code_of(&encode(17), 7, 300);
    let found = try_find(300, token.clone(), 2, 0, 20, 0).unwrap().unwrap();
    assert_eq!(code_of(&found, 7, 300), token);
}

#[test]
fn partition_start_beyond_usize_on_narrow_targets() {
    // Partition starts are computed in 64 bits.
    let start = starting_secret(0, 1 << 40, 1 << 10, 1 << 10);
    assert_eq!(start, encode(1u64 << 60));
}
