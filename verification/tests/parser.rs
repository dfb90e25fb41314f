use ftp_core::listing::parse_list_line;

#[test]
fn parses_a_file_line() {
    let e = parse_list_line("-rw-r--r--   1 user group 12345 Jan  1 12:00 filename.txt").unwrap();
    assert_eq!(e.name, "filename.txt");
    assert!(!e.is_dir);
    assert_eq!(e.size, 12345);
    assert_eq!(e.permissions, "-rw-r--r--");
    assert_eq!(e.modified, "Jan 1 12:00");
}

#[test]
fn parses_a_directory_line() {
    let e = parse_list_line("drwxr-xr-x   2 user group  4096 Jan  1 12:00 dirname").unwrap();
    assert_eq!(e.name, "dirname");
    assert!(e.is_dir);
    assert_eq!(e.size, 4096);
    assert_eq!(e.permissions, "drwxr-xr-x");
}

#[test]
fn joins_a_name_with_spaces() {
    let e = parse_list_line("-rw-r--r-- 1 u g 10 Jan 1 12:00 my file name.txt").unwrap();
    assert_eq!(e.name, "my file name.txt");
}

#[test]
fn rejects_a_short_line() {
    assert!(parse_list_line("-rw-r--r-- 1 u g 10 Jan 1 12:00").is_none());
    assert!(parse_list_line("total 12").is_none());
    assert!(parse_list_line("").is_none());
    assert!(parse_list_line("   ").is_none());
}

#[test]
fn rejects_dot_and_dotdot() {
    assert!(parse_list_line("drwxr-xr-x 2 u g 4096 Jan 1 12:00 .").is_none());
    assert!(parse_list_line("drwxr-xr-x 2 u g 4096 Jan 1 12:00 ..").is_none());
}

#[test]
fn unparseable_size_becomes_zero() {
    let e = parse_list_line("-rw-r--r-- 1 u g notanum Jan 1 12:00 f.txt").unwrap();
    assert_eq!(e.size, 0);
}

#[test]
fn size_with_plus_sign_parses() {
    let e = parse_list_line("-rw-r--r-- 1 u g +123 Jan 1 12:00 f.txt").unwrap();
    assert_eq!(e.size, 123);
}

#[test]
fn overflowing_size_becomes_zero() {
    let e = parse_list_line("-rw-r--r-- 1 u g 99999999999999999999999 Jan 1 12:00 f.txt").unwrap();
    assert_eq!(e.size, 0);
}

#[test]
fn leading_whitespace_is_skipped() {
    let e = parse_list_line("   -rw-r--r-- 1 u g 7 Jan 1 12:00 f.txt").unwrap();
    assert_eq!(e.name, "f.txt");
    assert_eq!(e.size, 7);
}

#[test]
fn unicode_whitespace_separates_tokens() {
    // U+00A0 splits like the standard whitespace splitter does
    let line = "-rw-r--r--\u{a0}1 u g 7\u{a0}Jan 1 12:00 f.txt";
    let e = parse_list_line(line).unwrap();
    assert_eq!(e.name, "f.txt");
    assert_eq!(e.size, 7);
    // so a name broken by U+00A0 comes back joined with plain spaces,
    // exactly as splitting and rejoining defines it
    let e2 = parse_list_line("-rw-r--r-- 1 u g 7 Jan 1 12:00 two\u{a0}words").unwrap();
    assert_eq!(e2.name, "two words");
}

#[test]
fn permission_string_decides_directory_flag() {
    let f = parse_list_line("lrwxrwxrwx 1 u g 7 Jan 1 12:00 link").unwrap();
    assert!(!f.is_dir);
    let d = parse_list_line("d--------- 1 u g 0 Jan 1 12:00 odd").unwrap();
    assert!(d.is_dir);
}
