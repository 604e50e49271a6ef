use moon_win32_utils::path::file_stem;

fn stem(p: &str) -> Option<String> {
    file_stem(p)
}

#[test]
fn stem_of_plain_driver_path() {
    assert_eq!(stem("C:\\Users\\Administrator\\Desktop\\driver.sys").as_deref(), Some("driver"));
    assert_eq!(stem("C:/tmp/my.driver.sys").as_deref(), Some("my.driver"));
    assert_eq!(stem("driver").as_deref(), Some("driver"));
}

#[test]
fn stem_keeps_names_that_start_with_a_dot() {
    assert_eq!(stem("C:\\dir\\.hidden").as_deref(), Some(".hidden"));
    assert_eq!(stem("name.").as_deref(), Some("name"));
}

#[test]
fn stem_ignores_trailing_separators_and_dot_components() {
    assert_eq!(stem("C:\\dir\\drv.sys\\").as_deref(), Some("drv"));
    assert_eq!(stem("a\\b.txt\\.").as_deref(), Some("b"));
    assert_eq!(stem("a/b/./").as_deref(), Some("b"));
}

#[test]
fn stem_after_drive_prefix() {
    assert_eq!(stem("C:drv.sys").as_deref(), Some("drv"));
    assert_eq!(stem("\\\\?\\C:\\drivers\\x.sys").as_deref(), Some("x"));
    assert_eq!(stem("\\\\server\\share\\x.sys").as_deref(), Some("x"));
}

#[test]
fn no_stem_without_file_name() {
    assert_eq!(stem(""), None);
    assert_eq!(stem("C:"), None);
    assert_eq!(stem("C:\\"), None);
    assert_eq!(stem("\\"), None);
    assert_eq!(stem("."), None);
    assert_eq!(stem(".."), None);
    assert_eq!(stem("a\\.."), None);
    assert_eq!(stem("\\\\server\\share"), None);
    assert_eq!(stem("\\\\?\\C:\\"), None);
}

#[test]
fn stems_are_single_nonempty_components() {
    for p in ["C:\\a\\b\\c.d.e", "x/y/.z", "\\\\?\\C:\\w\\v.", "C:rel\\q.sys\\", "\\\\server"] {
        let s = stem(p).unwrap();
        assert!(!s.is_empty());
        assert!(!s.contains('\\') && !s.contains('/'));
    }
}

#[test]
fn prefix_only_paths_have_no_stem() {
    assert_eq!(stem("\\\\?\\UNC\\s\\t"), None);
    assert_eq!(stem("\\\\?\\UNC\\s\\t\\"), None);
    assert_eq!(stem("//server/share"), None);
    assert_eq!(stem("\\\\.\\COM1"), None);
    assert_eq!(stem("\\\\?\\pictures"), None);
}

#[test]
fn stems_after_verbatim_device_and_unc_prefixes() {
    assert_eq!(stem("\\\\?\\UNC\\s\\t\\drv.sys").as_deref(), Some("drv"));
    assert_eq!(stem("//server/share/a.b").as_deref(), Some("a"));
    assert_eq!(stem("\\\\.\\C:\\x.y").as_deref(), Some("x"));
    assert_eq!(stem("\\\\?\\pictures\\x.png").as_deref(), Some("x"));
}

#[test]
fn server_without_share_is_a_file_name() {
    assert_eq!(stem("\\\\server").as_deref(), Some("server"));
    assert_eq!(stem("\\\\server\\").as_deref(), Some("server"));
}

#[test]
fn verbatim_paths_split_on_backslash_only_and_keep_dot() {
    assert_eq!(stem("\\\\?\\C:\\a/b.sys").as_deref(), Some("a/b"));
    assert_eq!(stem("\\\\?\\C:\\a\\."), None);
    assert_eq!(stem("\\\\?\\C:\\a\\b.sys\\").as_deref(), Some("b"));
}

#[test]
fn leading_current_directory() {
    assert_eq!(stem("./a.b").as_deref(), Some("a"));
    assert_eq!(stem(".\\"), None);
    assert_eq!(stem("C:."), None);
    assert_eq!(stem("C:./x.y").as_deref(), Some("x"));
}
