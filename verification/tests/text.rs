use aeco_launcher::platform::get_platform;
use aeco_launcher::text::{decimal, same_text};

#[test]
fn decimal_of_zero_is_a_single_digit() {
    assert_eq!(decimal(0), "0");
}

#[test]
fn decimal_writes_every_digit() {
    assert_eq!(decimal(7), "7");
    assert_eq!(decimal(9), "9");
    assert_eq!(decimal(10), "10");
    assert_eq!(decimal(1234567890), "1234567890");
    assert_eq!(decimal(1000000), "1000000");
}

#[test]
fn decimal_of_the_largest_number() {
    assert_eq!(decimal(u64::MAX), "18446744073709551615");
}

#[test]
fn decimal_agrees_with_the_standard_library() {
    for n in [1u64, 12, 99, 100, 101, 999, 4096, 65535, 4294967296] {
        assert_eq!(decimal(n), n.to_string());
    }
}

#[test]
fn texts_are_compared_character_by_character() {
    assert!(same_text("", ""));
    assert!(same_text("abc", "abc"));
    assert!(!same_text("abc", "abd"));
    assert!(!same_text("abc", "ab"));
    assert!(!same_text("abc", "ABC"));
    assert!(same_text("größe", "größe"));
}

#[test]
fn a_platform_is_named_by_system_and_architecture() {
    assert_eq!(get_platform("windows", "x86_64"), "windows-x86_64");
    assert_eq!(get_platform("linux", "x86"), "linux-x86");
    assert_eq!(get_platform("macos", "aarch64"), "macos-aarch64");
    assert_eq!(get_platform("", ""), "-");
}
