use ftp_core::errors::FtpError;
use ftp_core::text::parse_u64;
use ftp_core::text::u64_to_dec;
use ftp_core::verbs::capture_error;
use ftp_core::verbs::cwd_error;
use ftp_core::verbs::delete_finish;
use ftp_core::verbs::download_error;
use ftp_core::verbs::downloaded_folder_message;
use ftp_core::verbs::downloaded_message;
use ftp_core::verbs::finalize_error;
use ftp_core::verbs::list_error;
use ftp_core::verbs::make_dir_finish;
use ftp_core::verbs::pwd_finish;
use ftp_core::verbs::read_error;
use ftp_core::verbs::remove_dir_finish;
use ftp_core::verbs::rename_finish;
use ftp_core::verbs::size_or_zero;
use ftp_core::verbs::upload_error;
use ftp_core::verbs::uploaded_message;

#[test]
fn decimal_rendering_is_exact() {
    assert_eq!(u64_to_dec(0), "0");
    assert_eq!(u64_to_dec(7), "7");
    assert_eq!(u64_to_dec(42), "42");
    assert_eq!(u64_to_dec(65535), "65535");
    assert_eq!(u64_to_dec(u64::MAX), "18446744073709551615");
}

#[test]
fn decimal_parsing_is_exact() {
    assert_eq!(parse_u64("0"), Some(0));
    assert_eq!(parse_u64("18446744073709551615"), Some(u64::MAX));
    assert_eq!(parse_u64("18446744073709551616"), None);
    assert_eq!(parse_u64(""), None);
    assert_eq!(parse_u64("+"), None);
    assert_eq!(parse_u64("+9"), Some(9));
    assert_eq!(parse_u64("12a"), None);
    assert_eq!(parse_u64("-3"), None);
}

#[test]
fn verb_confirmations_are_verbatim() {
    assert_eq!(delete_finish("a.txt", Ok(())).unwrap(), "Deleted file: a.txt");
    assert_eq!(remove_dir_finish("d", Ok(())).unwrap(), "Deleted directory: d");
    assert_eq!(rename_finish("old.txt", "new.txt", Ok(())).unwrap(), "Renamed old.txt to new.txt");
    assert_eq!(make_dir_finish("fresh", Ok(())).unwrap(), "Created directory: fresh");
    assert_eq!(pwd_finish(Ok("/pub".to_string())).unwrap(), "/pub");
    assert_eq!(downloaded_message("f.bin"), "Downloaded f.bin");
    assert_eq!(uploaded_message("f.bin"), "Uploaded f.bin");
    assert_eq!(downloaded_folder_message("docs", 8), "Downloaded folder 'docs' (8 bytes)");
}

#[test]
fn verb_errors_carry_the_server_report() {
    match delete_finish("a", Err("550".to_string())) {
        Err(FtpError::OperationError(m)) => assert_eq!(m, "Delete failed: 550"),
        _ => panic!("expected OperationError"),
    }
    match remove_dir_finish("d", Err("550".to_string())) {
        Err(FtpError::OperationError(m)) => {
            assert_eq!(m, "Delete generic failed (directory must be empty): 550")
        },
        _ => panic!("expected OperationError"),
    }
    match rename_finish("a", "b", Err("553".to_string())) {
        Err(FtpError::OperationError(m)) => assert_eq!(m, "Rename failed: 553"),
        _ => panic!("expected OperationError"),
    }
    match make_dir_finish("d", Err("550".to_string())) {
        Err(FtpError::OperationError(m)) => assert_eq!(m, "Mkdir failed: 550"),
        _ => panic!("expected OperationError"),
    }
    match pwd_finish(Err("421".to_string())) {
        Err(FtpError::OperationError(m)) => assert_eq!(m, "PWD failed: 421"),
        _ => panic!("expected OperationError"),
    }
}

#[test]
fn transfer_errors_use_their_own_variant() {
    assert!(matches!(download_error("x"), FtpError::TransferError(_)));
    assert!(matches!(capture_error("x"), FtpError::TransferError(_)));
    assert!(matches!(finalize_error("x"), FtpError::TransferError(_)));
    assert!(matches!(read_error("x"), FtpError::TransferError(_)));
    assert!(matches!(upload_error("x"), FtpError::TransferError(_)));
    assert_eq!(download_error("busy").message(), "Download failed: busy");
    assert!(matches!(cwd_error("550"), FtpError::OperationError(_)));
    assert_eq!(cwd_error("550").message(), "CWD failed: 550");
    assert_eq!(list_error("425").message(), "LIST failed: 425");
}

#[test]
fn size_probe_failure_means_unknown() {
    assert_eq!(size_or_zero(Ok(12)), 12);
    assert_eq!(size_or_zero(Err("not supported".to_string())), 0);
}
