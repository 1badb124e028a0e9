use npm_resource::utils::tar::{packed_entry_path, unpacked_entry_path};
use npm_resource::resource::resource::version_from_file;
use npm_resource::text::{replace_all, split_once_char, to_ascii_lowercase};

#[test]
fn replace_all_replaces_each_occurrence() {
    assert_eq!(replace_all("a-b-c", '-', "_"), "a_b_c");
    assert_eq!(replace_all("a-b", '-', ""), "ab");
    assert_eq!(replace_all("abc", '-', "+"), "abc");
}

#[test]
fn to_ascii_lowercase_leaves_non_ascii() {
    assert_eq!(to_ascii_lowercase("ABC-xyz-Ä"), "abc-xyz-Ä");
}

#[test]
fn split_once_char_cuts_at_first() {
    assert_eq!(
        split_once_char("a:b:c", ':'),
        Some((String::from("a"), String::from("b:c")))
    );
    assert_eq!(split_once_char("abc", ':'), None);
    assert_eq!(
        split_once_char(":", ':'),
        Some((String::new(), String::new()))
    );
}

#[test]
fn version_from_file_trims_line_breaks() {
    assert_eq!(version_from_file("1.0.2\n"), "1.0.2");
    assert_eq!(version_from_file("1.0.2\n\n\n"), "1.0.2");
    assert_eq!(version_from_file("1.0.2"), "1.0.2");
    assert_eq!(version_from_file("\n"), "");
    assert_eq!(version_from_file("1.0.2 \n"), "1.0.2 ");
}

#[test]
fn tarball_entry_paths() {
    assert_eq!(unpacked_entry_path("package/package.json"), "package.json");
    assert_eq!(unpacked_entry_path("package/lib/index.js"), "lib/index.js");
    assert_eq!(unpacked_entry_path("package"), "");
    assert_eq!(unpacked_entry_path("package/"), "");
    assert_eq!(unpacked_entry_path("other/index.js"), "other/index.js");
    assert_eq!(unpacked_entry_path("packages/index.js"), "packages/index.js");
    assert_eq!(unpacked_entry_path("index.js"), "index.js");
    assert_eq!(packed_entry_path("lib/index.js"), "package/lib/index.js");
    assert_eq!(packed_entry_path(""), "package/");
}
