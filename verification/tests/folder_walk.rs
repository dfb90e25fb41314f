use ftp_core::errors::FtpError;
use ftp_core::walk::WalkAction;
use ftp_core::walk::WalkEvent;
use ftp_core::walk::walk_start;

fn dir_line(name: &str) -> String {
    format!("drwxr-xr-x 2 user group 4096 Jan 1 12:00 {}", name)
}

fn file_line(size: u64, name: &str) -> String {
    format!("-rw-r--r-- 1 user group {} Jan 1 12:00 {}", size, name)
}

fn expect_make_dir(a: WalkAction) -> String {
    match a {
        WalkAction::MakeLocalDir { local } => local,
        _ => panic!("expected MakeLocalDir"),
    }
}

fn expect_change_dir(a: WalkAction) -> String {
    match a {
        WalkAction::ChangeDir { remote } => remote,
        _ => panic!("expected ChangeDir"),
    }
}

#[test]
fn a_two_level_tree_is_mirrored_and_totalled() {
    let (mut w, a0) = walk_start("data", "out", Some("/home".to_string()));
    assert_eq!(expect_make_dir(a0), "out");

    // local root made; enter the resolved remote root
    assert_eq!(expect_change_dir(w.walk_step(WalkEvent::Done)), "/home/data");
    assert!(matches!(w.walk_step(WalkEvent::Done), WalkAction::ListDir));

    // the root lists a subdirectory and a file, in this order
    let lines = vec![dir_line("sub"), file_line(3, "a.txt")];
    let a = w.walk_step(WalkEvent::Listed { lines });
    assert_eq!(expect_make_dir(a), "out/sub");

    // descend into the subdirectory
    assert_eq!(
        expect_change_dir(w.walk_step(WalkEvent::Done)),
        "/home/data/sub"
    );
    assert!(matches!(w.walk_step(WalkEvent::Done), WalkAction::ListDir));

    // the subdirectory holds one five-byte file
    let lines = vec![file_line(5, "b.bin")];
    match w.walk_step(WalkEvent::Listed { lines }) {
        WalkAction::FetchFile { name } => assert_eq!(name, "b.bin"),
        _ => panic!("expected FetchFile"),
    }
    let payload = vec![10, 20, 30, 40, 50];
    match w.walk_step(WalkEvent::Fetched { data: payload.clone() }) {
        WalkAction::WriteLocal { local, data } => {
            assert_eq!(local, "out/sub/b.bin");
            assert_eq!(data, payload);
        },
        _ => panic!("expected WriteLocal"),
    }

    // the subdirectory is done: return to the parent before its next entry
    assert_eq!(expect_change_dir(w.walk_step(WalkEvent::Done)), "/home/data");

    // the parent's remaining entry is the file
    match w.walk_step(WalkEvent::Done) {
        WalkAction::FetchFile { name } => assert_eq!(name, "a.txt"),
        _ => panic!("expected FetchFile"),
    }
    match w.walk_step(WalkEvent::Fetched { data: vec![1, 2, 3] }) {
        WalkAction::WriteLocal { local, data } => {
            assert_eq!(local, "out/a.txt");
            assert_eq!(data, vec![1, 2, 3]);
        },
        _ => panic!("expected WriteLocal"),
    }

    // everything done: restore the original working directory, then finish
    match w.walk_step(WalkEvent::Done) {
        WalkAction::RestoreDir { remote } => assert_eq!(remote, "/home"),
        _ => panic!("expected RestoreDir"),
    }
    match w.walk_step(WalkEvent::Done) {
        WalkAction::Finish { total } => assert_eq!(total, 8),
        _ => panic!("expected Finish"),
    }
}

#[test]
fn an_absolute_remote_directory_is_kept() {
    let (mut w, a0) = walk_start("/srv/files", "dst", Some("/home".to_string()));
    assert_eq!(expect_make_dir(a0), "dst");
    assert_eq!(expect_change_dir(w.walk_step(WalkEvent::Done)), "/srv/files");
}

#[test]
fn an_unknown_working_directory_defaults_to_root() {
    let (mut w, _a0) = walk_start("files", "dst", None);
    assert_eq!(expect_change_dir(w.walk_step(WalkEvent::Done)), "/files");
}

#[test]
fn a_trailing_slash_is_not_doubled() {
    let (mut w, _a0) = walk_start("files", "dst", Some("/home/".to_string()));
    assert_eq!(expect_change_dir(w.walk_step(WalkEvent::Done)), "/home/files");
}

#[test]
fn a_listing_failure_restores_then_fails() {
    let (mut w, _a0) = walk_start("data", "out", Some("/home".to_string()));
    w.walk_step(WalkEvent::Done); // local root made
    w.walk_step(WalkEvent::Done); // entered remote root
    let a = w.walk_step(WalkEvent::Failed { raw: "timeout".to_string() });
    match a {
        WalkAction::RestoreDir { remote } => assert_eq!(remote, "/home"),
        _ => panic!("expected RestoreDir"),
    }
    match w.walk_step(WalkEvent::Done) {
        WalkAction::Fail { error } => match error {
            FtpError::OperationError(m) => {
                assert_eq!(m, "LIST failed in /home/data: timeout")
            },
            _ => panic!("expected OperationError"),
        },
        _ => panic!("expected Fail"),
    }
}

#[test]
fn a_failed_restore_still_reports_the_result() {
    let (mut w, _a0) = walk_start("data", "out", Some("/home".to_string()));
    w.walk_step(WalkEvent::Done);
    w.walk_step(WalkEvent::Done);
    // an empty directory: nothing to do but restore and finish
    let a = w.walk_step(WalkEvent::Listed { lines: Vec::new() });
    match a {
        WalkAction::RestoreDir { remote } => assert_eq!(remote, "/home"),
        _ => panic!("expected RestoreDir"),
    }
    // the best-effort restore fails; the walk still finishes
    match w.walk_step(WalkEvent::Failed { raw: "gone".to_string() }) {
        WalkAction::Finish { total } => assert_eq!(total, 0),
        _ => panic!("expected Finish"),
    }
}

#[test]
fn an_event_answering_nothing_fails_the_walk() {
    let (mut w, _a0) = walk_start("d", "o", Some("/h".to_string()));
    w.walk_step(WalkEvent::Done); // local root made
    w.walk_step(WalkEvent::Done); // entered remote root; a listing is due
    match w.walk_step(WalkEvent::Done) {
        WalkAction::Fail { error } => {
            assert_eq!(error.message(), "unexpected walk event")
        },
        _ => panic!("expected Fail"),
    }
}

#[test]
fn a_fetch_failure_names_the_file() {
    let (mut w, _a0) = walk_start("d", "o", Some("/h".to_string()));
    w.walk_step(WalkEvent::Done);
    w.walk_step(WalkEvent::Done);
    let lines = vec![file_line(4, "x.bin")];
    w.walk_step(WalkEvent::Listed { lines });
    let a = w.walk_step(WalkEvent::Failed { raw: "451".to_string() });
    assert!(matches!(a, WalkAction::RestoreDir { .. }));
    match w.walk_step(WalkEvent::Done) {
        WalkAction::Fail { error } => match error {
            FtpError::TransferError(m) => {
                assert_eq!(m, "Download failed for x.bin: 451")
            },
            _ => panic!("expected TransferError"),
        },
        _ => panic!("expected Fail"),
    }
}
