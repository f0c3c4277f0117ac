use dedup::err::Error;
use dedup::file::{
    c_path_check, can_expand, chown_result, compare_chunks, compare_content, crc64, expand_path,
    expansion_result, temp_name, unicode_error, ChunkVerdict, ContentHasher, TEMP_NAME_LAST,
};

#[test]
fn crc64_of_nothing_is_zero() {
    assert_eq!(crc64(b"", 1024), 0);
    assert_eq!(ContentHasher::new().sum64(), 0);
}

#[test]
fn crc64_known_values() {
    assert_eq!(crc64(b"hello world!", 1024), 0x8483_c0fa_3260_7d61);
    assert_eq!(crc64(b"@", 1024), 0x7b1b_8ab9_8fa4_b8f8);
    assert_eq!(crc64(&[0u8; 32], 1024), 0xc95a_f861_7cd5_330c);
    assert_eq!(crc64(&[0u8; 1024], 7), 0xc378_6397_2069_270c);
}

#[test]
fn crc64_does_not_depend_on_the_chunk_size() {
    let data: Vec<u8> = (0..1000u32).map(|n| (n * 7 % 251) as u8).collect();
    let whole = crc64(&data, 4096);
    for size in [0usize, 1, 2, 3, 7, 64, 999, 1000, 1001] {
        assert_eq!(crc64(&data, size), whole);
    }
}

#[test]
fn crc64_matches_the_digest_of_the_crate() {
    let data = b"the quick brown fox";
    let mut digest = crc64fast::Digest::new();
    digest.write(data);
    assert_eq!(crc64(data, 5), digest.sum64());
}

#[test]
fn hasher_feed_reads_on_until_an_empty_chunk() {
    let mut hasher = ContentHasher::new();
    assert_eq!(hasher.feed(b"hello "), None);
    assert_eq!(hasher.feed(b"world!"), None);
    assert_eq!(hasher.feed(b""), Some(0x8483_c0fa_3260_7d61));
    assert_eq!(hasher.sum64(), 0x8483_c0fa_3260_7d61);
}

#[test]
fn different_content_has_different_checksum_here() {
    assert_ne!(crc64(b"hello", 16), crc64(b"world", 16));
}

#[test]
fn compare_chunks_verdicts() {
    assert_eq!(compare_chunks(b"", b""), ChunkVerdict::Equal);
    assert_eq!(compare_chunks(b"abc", b"abc"), ChunkVerdict::Continue);
    assert_eq!(compare_chunks(b"abc", b"abd"), ChunkVerdict::Different);
    assert_eq!(compare_chunks(b"abc", b"ab"), ChunkVerdict::Different);
    assert_eq!(compare_chunks(b"", b"a"), ChunkVerdict::Different);
    assert_eq!(compare_chunks(b"a", b""), ChunkVerdict::Different);
}

#[test]
fn compare_content_is_equality_of_bytes() {
    for size in [0usize, 1, 2, 3, 5, 100] {
        assert!(compare_content(b"", b"", size));
        assert!(compare_content(b"hello", b"hello", size));
        assert!(!compare_content(b"hello", b"world", size));
        assert!(!compare_content(b"hello", b"hell", size));
        assert!(!compare_content(b"hell", b"hello", size));
        assert!(!compare_content(b"hello", b"hellO", size));
        assert!(!compare_content(b"", b"x", size));
    }
}

#[test]
fn temp_name_appends_underscore_and_number() {
    assert_eq!(temp_name(b"/t/a.txt", 0).unwrap(), b"/t/a.txt_0".to_vec());
    assert_eq!(temp_name(b"/t/a.txt", 7).unwrap(), b"/t/a.txt_7".to_vec());
    assert_eq!(temp_name(b"/t/a.txt", 10).unwrap(), b"/t/a.txt_10".to_vec());
    assert_eq!(temp_name(b"/t/a.txt", 1203).unwrap(), b"/t/a.txt_1203".to_vec());
    assert_eq!(temp_name(b"", 5).unwrap(), b"_5".to_vec());
    assert_eq!(TEMP_NAME_LAST, 65535);
    assert_eq!(temp_name(b"x", TEMP_NAME_LAST).unwrap(), b"x_65535".to_vec());
    assert_eq!(temp_name(b"x", u32::MAX).unwrap(), b"x_4294967295".to_vec());
}

#[test]
fn temp_name_keeps_unicode_paths() {
    let path = "/t/\u{00e9}t\u{00e9}".as_bytes();
    let mut expected = path.to_vec();
    expected.extend_from_slice(b"_3");
    assert_eq!(temp_name(path, 3).unwrap(), expected);
}

#[test]
fn temp_name_refuses_what_is_not_unicode() {
    match temp_name(b"/t/a\xffb", 0) {
        Err(Error::UnicodeError { lossy }) => assert_eq!(lossy, "/t/a\u{fffd}b"),
        other => panic!("unexpected: {:?}", other),
    }
}

#[test]
fn unicode_error_holds_the_lossy_form() {
    match unicode_error(b"\xc3\x28") {
        Error::UnicodeError { lossy } => assert_eq!(lossy, "\u{fffd}("),
        other => panic!("unexpected: {:?}", other),
    }
}

#[test]
fn c_path_check_names_the_first_zero_byte() {
    assert!(c_path_check(b"/t/a").is_ok());
    assert!(c_path_check(b"").is_ok());
    match c_path_check(b"/t\0/a\0") {
        Err(Error::NulError { position }) => assert_eq!(position, 2),
        other => panic!("unexpected: {:?}", other),
    }
    match c_path_check(b"\0") {
        Err(Error::NulError { position }) => assert_eq!(position, 0),
        other => panic!("unexpected: {:?}", other),
    }
}

#[test]
fn chown_result_judges_the_status() {
    assert!(chown_result(0).is_ok());
    for status in [-1, 1, 13] {
        match chown_result(status) {
            Err(Error::Unspecified(text)) => assert_eq!(text, "Error in libc::chown"),
            other => panic!("unexpected: {:?}", other),
        }
    }
}

#[test]
fn expand_path_leaves_a_plain_path_alone() {
    assert_eq!(expand_path(b"/tmp/some/file.txt").unwrap(), "/tmp/some/file.txt");
    assert_eq!(expand_path(b"relative/~/x").unwrap(), "relative/~/x");
    assert_eq!(expand_path(b"").unwrap(), "");
}

#[test]
fn expand_path_resolves_an_escaped_dollar() {
    assert_eq!(expand_path(b"/tmp/a$$b").unwrap(), "/tmp/a$b");
}

#[test]
fn expand_path_uses_a_default_for_an_unset_variable() {
    assert_eq!(
        expand_path(b"/tmp/${DEDUP_SURELY_NOT_SET_6F1A:-fallback}/x").unwrap(),
        "/tmp/fallback/x"
    );
}

#[test]
fn expand_path_reports_an_unknown_variable() {
    match expand_path(b"/tmp/$DEDUP_SURELY_NOT_SET_6F1A/x") {
        Err(Error::ExpandError { var_name, cause }) => {
            assert_eq!(var_name, "DEDUP_SURELY_NOT_SET_6F1A");
            assert_eq!(cause, "environment variable not found");
        }
        other => panic!("unexpected: {:?}", other),
    }
}

#[test]
fn expand_path_refuses_what_is_not_unicode() {
    match expand_path(b"/tmp/\xff") {
        Err(Error::UnicodeError { lossy }) => assert_eq!(lossy, "/tmp/\u{fffd}"),
        other => panic!("unexpected: {:?}", other),
    }
}

#[test]
fn expansion_result_maps_both_cases() {
    assert_eq!(expansion_result(Ok("/x".to_string())).unwrap(), "/x");
    match expansion_result(Err(("HOME".to_string(), "gone".to_string()))) {
        Err(Error::ExpandError { var_name, cause }) => {
            assert_eq!(var_name, "HOME");
            assert_eq!(cause, "gone");
        }
        other => panic!("unexpected: {:?}", other),
    }
}

#[test]
fn can_expand_looks_behind_every_dollar() {
    assert!(can_expand(""));
    assert!(can_expand("$"));
    assert!(can_expand("/a/$HOME/b$"));
    assert!(can_expand("/caf\u{00e9}/$A"));
    assert!(can_expand("/a/${\u{00e9}}"));
    assert!(can_expand("/a/$\u{2192}x"));
    assert!(can_expand("\u{00e9}$"));
    assert!(!can_expand("/a/$\u{00e9}"));
    assert!(!can_expand("$\u{4e2d}x"));
    assert!(!can_expand("$A/$\u{0663}"));
}

#[test]
fn expand_path_refuses_a_variable_that_begins_outside_ascii() {
    match expand_path("/tmp/$\u{00e9}t\u{00e9}".as_bytes()) {
        Err(Error::ExpandError { var_name, cause }) => {
            assert_eq!(var_name, "");
            assert_eq!(cause, "variable name does not begin with an ASCII character");
        }
        other => panic!("unexpected: {:?}", other),
    }
}

#[test]
fn expand_path_keeps_a_dollar_before_a_sign_outside_ascii() {
    assert_eq!(
        expand_path("/tmp/$\u{2192}x".as_bytes()).unwrap(),
        "/tmp/$\u{2192}x"
    );
}

#[test]
fn expand_path_keeps_unicode_outside_variables() {
    assert_eq!(
        expand_path("/tmp/caf\u{00e9}/x".as_bytes()).unwrap(),
        "/tmp/caf\u{00e9}/x"
    );
}
