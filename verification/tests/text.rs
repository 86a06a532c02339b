use farreach::paths::{file_name, safe_file_name};
use farreach::text::{contains, contains_char, decimal_i32, decimal_u64, join, replace, same_text, trim};

#[test]
fn trims_unicode_white_space() {
    assert_eq!(trim("  \t abc \n"), "abc");
    assert_eq!(trim("\u{3000}x y\u{2009}"), "x y");
    assert_eq!(trim(" \r\n "), "");
    assert_eq!(trim("a"), "a");
}

#[test]
fn decimal_notation() {
    assert_eq!(decimal_u64(0), "0");
    assert_eq!(decimal_u64(115200), "115200");
    assert_eq!(decimal_u64(u64::MAX), "18446744073709551615");
    assert_eq!(decimal_i32(-1), "-1");
    assert_eq!(decimal_i32(i32::MIN), "-2147483648");
    assert_eq!(decimal_i32(101), "101");
}

#[test]
fn replace_is_left_to_right_without_overlap() {
    assert_eq!(replace("aaa", "aa", "b"), "ba");
    assert_eq!(replace("x{a}y{a}", "{a}", "Z"), "xZyZ");
    assert_eq!(replace("none", "{a}", "Z"), "none");
    assert_eq!(replace("über{a}", "{a}", "ß"), "überß");
}

#[test]
fn searching() {
    assert!(contains("--port={serial}", "{serial}"));
    assert!(!contains("{seria", "{serial}"));
    assert!(contains_char("a{b", '{'));
    assert!(!contains_char("ab", '}'));
    assert!(same_text("ab", "ab"));
    assert!(!same_text("ab", "abc"));
}

#[test]
fn joins_with_separator() {
    let w = vec!["a".to_string(), "b c".to_string(), "".to_string()];
    assert_eq!(join(&w, " "), "a b c ");
    assert_eq!(join(&vec![], " "), "");
}

#[test]
fn file_names() {
    assert_eq!(file_name("build/app.elf").as_deref(), Some("app.elf"));
    assert_eq!(file_name("app.bin").as_deref(), Some("app.bin"));
    assert_eq!(file_name("target/release/").as_deref(), Some("release"));
    assert_eq!(file_name("dir/.").as_deref(), Some("dir"));
    assert_eq!(file_name("a//b").as_deref(), Some("b"));
    assert_eq!(file_name("./fw").as_deref(), Some("fw"));
    assert_eq!(file_name(".hidden").as_deref(), Some(".hidden"));
    assert_eq!(file_name("dir/.."), None);
    assert_eq!(file_name(".."), None);
    assert_eq!(file_name("."), None);
    assert_eq!(file_name("/"), None);
    assert_eq!(file_name(""), None);
}

#[test]
fn safe_names_fall_back() {
    assert_eq!(safe_file_name("../../etc/passwd"), "passwd");
    assert_eq!(safe_file_name("../"), "firmware.bin");
    assert_eq!(safe_file_name(""), "firmware.bin");
    assert_eq!(safe_file_name("/tmp/fw.bin"), "fw.bin");
}

#[test]
fn safe_names_are_stable() {
    for p in ["a/b/c.elf", "..", "", "dir/", "x", "./."] {
        let once = safe_file_name(p);
        assert_eq!(safe_file_name(&once), once);
    }
}
