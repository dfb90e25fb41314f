use ftp_core::order::listed_entries;

fn line(perm: &str, size: u64, name: &str) -> String {
    format!("{} 1 user group {} Jan 1 12:00 {}", perm, size, name)
}

#[test]
fn directories_precede_files() {
    let lines = vec![
        line("-rw-r--r--", 10, "zeta.txt"),
        line("drwxr-xr-x", 4096, "mu"),
        line("-rw-r--r--", 20, "alpha.txt"),
        line("drwxr-xr-x", 4096, "kappa"),
    ];
    let r = listed_entries(&lines);
    let names: Vec<&str> = r.iter().map(|e| e.name.as_str()).collect();
    assert_eq!(names, vec!["kappa", "mu", "alpha.txt", "zeta.txt"]);
    assert!(r[0].is_dir && r[1].is_dir);
    assert!(!r[2].is_dir && !r[3].is_dir);
}

#[test]
fn name_order_is_case_insensitive() {
    let lines = vec![
        line("-rw-r--r--", 1, "Banana.txt"),
        line("-rw-r--r--", 1, "apple.txt"),
        line("-rw-r--r--", 1, "Cherry.txt"),
    ];
    let r = listed_entries(&lines);
    let names: Vec<&str> = r.iter().map(|e| e.name.as_str()).collect();
    // byte order would put the capitals first; the listing order folds case
    assert_eq!(names, vec!["apple.txt", "Banana.txt", "Cherry.txt"]);
}

#[test]
fn malformed_lines_are_dropped_silently() {
    let lines = vec![
        "total 8".to_string(),
        line("-rw-r--r--", 5, "kept.txt"),
        "noise".to_string(),
    ];
    let r = listed_entries(&lines);
    assert_eq!(r.len(), 1);
    assert_eq!(r[0].name, "kept.txt");
}

#[test]
fn dot_entries_never_appear() {
    let lines = vec![
        line("drwxr-xr-x", 4096, "."),
        line("drwxr-xr-x", 4096, ".."),
        line("drwxr-xr-x", 4096, "real"),
    ];
    let r = listed_entries(&lines);
    assert_eq!(r.len(), 1);
    assert_eq!(r[0].name, "real");
}
