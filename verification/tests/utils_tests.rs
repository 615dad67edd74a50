use xclouder::text::{contains, decimal, find_char, hex, join, replace_all, rfind_char, same_text, split_once, starts_with};
use xclouder::utils::{extract_ext, fill_name, fix_name, get_counter, shot_unique, unique_id, Counter};

#[test]
fn test_shot_unique() {
    let mut counter = Counter::new();
    let id1 = shot_unique(&mut counter);
    let id2 = shot_unique(&mut counter);
    assert_ne!(id1, id2);
    assert!(id1.len() > 0);
    assert!(id2.len() > 0);
}

#[test]
fn test_fill_name() {
    let mut counter = Counter::new();
    let name = fill_name(&mut counter, "test.jpg", "test_user");
    assert!(name.ends_with(".jpg"));
    assert!(name.starts_with("test_user/"));

    let name2 = fill_name(&mut counter, "test.png", "other_user");
    assert!(name2.ends_with(".png"));
    assert!(name2.starts_with("other_user/"));
    assert_ne!(name, name2);
}

#[test]
fn test_fix_name() {
    assert_eq!(fix_name("_cos/test.jpg"), "_fix/test.jpg");
    assert_eq!(fix_name("_tos/test.jpg"), "_fix/test.jpg");
    assert_eq!(fix_name("_oss/test.jpg"), "_fix/test.jpg");
    assert_eq!(fix_name("test.jpg"), "test.jpg");
}

#[test]
fn test_extract_ext() {
    assert_eq!(extract_ext("test.jpg"), ".jpg");
    assert_eq!(extract_ext("test"), "");
    assert_eq!(extract_ext("test.tar.gz"), ".gz");
    assert_eq!(extract_ext(".gitignore"), ".gitignore");
}

#[test]
fn fix_name_replaces_every_tag() {
    assert_eq!(fix_name("_cos/_tos/_oss/_cos"), "_fix/_fix/_fix/_fix");
    assert_eq!(fix_name("a_cosb_ossc"), "a_fixb_fixc");
    assert_eq!(fix_name("_co_cos"), "_co_fix");
    assert_eq!(fix_name(""), "");
    assert_eq!(fix_name("_to_s"), "_to_s");
}

#[test]
fn unique_id_is_hex_of_formula() {
    // ((1732636801 - 1732636800) * 100 + 7) * 10000 + 42 = 1070042 = 0x1053da
    assert_eq!(unique_id(1732636801, 7, 42), "1053da");
    assert_eq!(unique_id(1732636800, 0, 0), "0");
    assert_eq!(unique_id(1732636800, 0, 255), "ff");
    // one second before the base: (-100 + 0) * 10000 + 0 = -1000000
    assert_eq!(unique_id(1732636799, 0, 0), format!("{:x}", -1000000i64));
    assert_eq!(unique_id(0, 9, 9999), format!("{:x}", (-1732636800i64 * 100 + 9) * 10000 + 9999));
}

#[test]
fn shot_unique_moves_counter() {
    let mut counter = Counter::new();
    let _ = shot_unique(&mut counter);
    assert_eq!(counter.next, 1);
    let id = shot_unique(&mut counter);
    assert!(id.chars().all(|c| c.is_ascii_hexdigit() && !c.is_ascii_uppercase()));
    assert_eq!(counter.next, 2);
}

#[test]
fn counter_counts_below_ten_thousand_and_wraps() {
    let mut counter = Counter::new();
    assert_eq!(get_counter(&mut counter), 0);
    assert_eq!(get_counter(&mut counter), 1);
    counter.next = 10000;
    assert_eq!(get_counter(&mut counter), 0);
    assert_eq!(counter.next, 10001);
    counter.next = 123456;
    assert_eq!(get_counter(&mut counter), 3456);
    counter.next = u32::MAX;
    assert_eq!(get_counter(&mut counter), (u32::MAX % 10000) as i64);
    assert_eq!(counter.next, 0);
}

#[test]
fn numbers_as_text() {
    assert_eq!(decimal(0), "0");
    assert_eq!(decimal(7), "7");
    assert_eq!(decimal(10), "10");
    assert_eq!(decimal(18446744073709551615), "18446744073709551615");
    assert_eq!(hex(0), "0");
    assert_eq!(hex(15), "f");
    assert_eq!(hex(16), "10");
    assert_eq!(hex(0xdeadbeef), "deadbeef");
    assert_eq!(hex(u64::MAX), "ffffffffffffffff");
}

#[test]
fn text_searches() {
    assert_eq!(find_char("a.b.c", '.'), Some(1));
    assert_eq!(find_char("abc", '.'), None);
    assert_eq!(find_char("", '.'), None);
    assert_eq!(rfind_char("a.b.c", '.'), Some(3));
    assert_eq!(rfind_char("abc", '.'), None);
    assert_eq!(find_char("ä.b", '.'), Some(1));
    assert_eq!(split_once("a=b=c", '='), Some(("a", "b=c")));
    assert_eq!(split_once("=", '='), Some(("", "")));
    assert_eq!(split_once("abc", '='), None);
    assert_eq!(split_once("äö=ü", '='), Some(("äö", "ü")));
    assert!(starts_with("http://x", "http"));
    assert!(!starts_with("htt", "http"));
    assert!(starts_with("abc", ""));
    assert!(contains("photos/a.jpg", "tos"));
    assert!(!contains("photo/a.jpg", "tos"));
    assert!(contains("abc", ""));
    assert!(contains("", ""));
    assert!(!contains("", "a"));
    assert!(same_text("abc", "abc"));
    assert!(!same_text("abc", "abd"));
}

#[test]
fn text_replace_and_join() {
    assert_eq!(replace_all("aaa", "aa", "b"), "ba");
    assert_eq!(replace_all("abc", "", "x"), "abc");
    assert_eq!(replace_all("abcabc", "bc", ""), "aa");
    assert_eq!(replace_all("äbcä", "ä", "a"), "abca");
    assert_eq!(join(&vec![], "&"), "");
    assert_eq!(join(&vec!["a".to_string()], "&"), "a");
    assert_eq!(join(&vec!["a".to_string(), "b".to_string(), "".to_string()], "&"), "a&b&");
}
