use ftp_core::cloud::cloud_entry_from_dropbox;
use ftp_core::cloud::cloud_entry_from_google;
use ftp_core::config::empty_config;
use ftp_core::local::icon_data_url;
use ftp_core::local::normalize_extension;
use ftp_core::policy::chain_trust_verdict;
use ftp_core::policy::signature_verdict;

#[test]
fn google_folders_are_recognized_by_mime() {
    let d = cloud_entry_from_google(
        "id1".to_string(),
        "Docs".to_string(),
        &"application/vnd.google-apps.folder".to_string(),
        None,
        Some("2024-01-01T00:00:00Z".to_string()),
    );
    assert!(d.is_dir);
    assert_eq!(d.id.as_deref(), Some("id1"));
    assert_eq!(d.last_modified.as_deref(), Some("2024-01-01T00:00:00Z"));
    let f = cloud_entry_from_google(
        "id2".to_string(),
        "a.txt".to_string(),
        &"text/plain".to_string(),
        Some("123".to_string()),
        None,
    );
    assert!(!f.is_dir);
    assert_eq!(f.size, Some(123));
}

#[test]
fn google_size_strings_parse_best_effort() {
    let f = cloud_entry_from_google(
        "id".to_string(),
        "x".to_string(),
        &"text/plain".to_string(),
        Some("notanumber".to_string()),
        None,
    );
    assert_eq!(f.size, None);
}

#[test]
fn dropbox_folders_are_recognized_by_tag() {
    let d = cloud_entry_from_dropbox(
        "id:1".to_string(),
        "Docs".to_string(),
        &"folder".to_string(),
        None,
        None,
    );
    assert!(d.is_dir);
    let f = cloud_entry_from_dropbox(
        "id:2".to_string(),
        "a.txt".to_string(),
        &"file".to_string(),
        Some(9),
        None,
    );
    assert!(!f.is_dir);
    assert_eq!(f.size, Some(9));
}

#[test]
fn the_empty_config_has_nothing() {
    let c = empty_config();
    assert!(c.ftp_connections.is_empty());
    assert!(c.cloud_connections.is_empty());
    assert!(c.theme.is_none());
}

#[test]
fn extensions_get_exactly_one_dot() {
    assert_eq!(normalize_extension("txt").unwrap(), ".txt");
    assert_eq!(normalize_extension(".png").unwrap(), ".png");
    assert_eq!(normalize_extension("").unwrap_err(), "Empty extension");
}

#[test]
fn icon_bytes_become_a_data_url() {
    let png_magic: Vec<u8> = vec![0x89, 0x50, 0x4E, 0x47];
    assert_eq!(icon_data_url(&png_magic), "data:image/png;base64,iVBORw==");
    assert_eq!(icon_data_url(&Vec::new()), "data:image/png;base64,");
}

#[test]
fn the_trust_policy_accepts_chains_but_not_bad_signatures() {
    // a self-signed chain passes the trust check
    assert!(chain_trust_verdict());
    // a valid handshake signature passes through
    assert!(signature_verdict(Ok(())).is_ok());
    // an invalid handshake signature is still rejected
    let r = signature_verdict(Err("bad signature".to_string()));
    assert_eq!(r.unwrap_err(), "bad signature");
}
