use resonant::seed::{day_code, digits_of, generate_daily_seed, hash_bytes};

#[test]
fn daily_seed_known_value() {
    assert_eq!(generate_daily_seed("user_42", 2024, 3, 15), 1900601817);
}

#[test]
fn daily_seed_is_stable_across_calls() {
    let a = generate_daily_seed("user_42", 2024, 3, 15);
    let b = generate_daily_seed("user_42", 2024, 3, 15);
    assert_eq!(a, b);
}

#[test]
fn daily_seed_changes_with_the_date() {
    assert_eq!(generate_daily_seed("user_42", 2024, 3, 16), 1900601818);
    assert_ne!(generate_daily_seed("user_42", 2024, 3, 15), generate_daily_seed("user_42", 2024, 3, 16));
    assert_ne!(generate_daily_seed("user_42", 2024, 3, 15), generate_daily_seed("user_42", 2025, 3, 15));
}

#[test]
fn daily_seed_empty_user() {
    assert_eq!(generate_daily_seed("", 2024, 1, 1), 2372633794);
}

#[test]
fn daily_seed_hashes_utf8_bytes() {
    assert_eq!(generate_daily_seed("é", 2024, 1, 1), 2190079752);
}

#[test]
fn daily_seed_zero_date() {
    assert_eq!(generate_daily_seed("abc", 0, 0, 0), 2987022);
}

#[test]
fn hash_bytes_continues_from_state() {
    assert_eq!(hash_bytes(0, b"abc"), 96354);
    assert_eq!(hash_bytes(7, b"abc"), 304891);
    assert_eq!(hash_bytes(5, b""), 5);
    assert_eq!(hash_bytes(5, b"u"), 272);
}

#[test]
fn hash_bytes_wraps_at_32_bits() {
    assert_eq!(hash_bytes(0, b"x4294967295"), 2746903973);
}

#[test]
fn day_code_combines_fields() {
    assert_eq!(day_code(2024, 3, 15), 20240315);
    assert_eq!(day_code(0, 0, 7), 7);
}

#[test]
fn digits_of_values() {
    assert_eq!(digits_of(0), b"0".to_vec());
    assert_eq!(digits_of(9), b"9".to_vec());
    assert_eq!(digits_of(10), b"10".to_vec());
    assert_eq!(digits_of(20240315), b"20240315".to_vec());
    assert_eq!(digits_of(4294967295), b"4294967295".to_vec());
}
