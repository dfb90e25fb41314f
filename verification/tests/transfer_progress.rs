use ftp_core::transfer::DownloadTracker;
use ftp_core::transfer::assemble_chunks;
use ftp_core::transfer::download_transfer_id;
use ftp_core::transfer::upload_final_record;
use ftp_core::transfer::upload_transfer_id;

#[test]
fn transfer_ids_carry_their_prefix() {
    let d = download_transfer_id();
    assert_eq!(d.len(), 39);
    assert!(d.starts_with("dl-"));
    let u = upload_transfer_id();
    assert_eq!(u.len(), 39);
    assert!(u.starts_with("ul-"));
    assert_ne!(download_transfer_id(), download_transfer_id());
}

#[test]
fn chunks_with_known_total_emit_progress() {
    let mut t = DownloadTracker::new("dl-x".to_string(), "a.bin".to_string(), 10);
    let first = t.note_chunk(&[1, 2, 3]).unwrap();
    assert_eq!(first.transfer_id, "dl-x");
    assert_eq!(first.filename, "a.bin");
    assert_eq!(first.progress, 3);
    assert_eq!(first.total, 10);
    assert_eq!(first.status, "downloading");
    let second = t.note_chunk(&[4, 5, 6, 7]).unwrap();
    assert_eq!(second.progress, 7);
    let last = t.finish();
    assert_eq!(last.progress, 7);
    assert_eq!(last.status, "complete");
}

#[test]
fn unknown_total_emits_no_chunk_records() {
    let mut t = DownloadTracker::new("dl-y".to_string(), "b.bin".to_string(), 0);
    assert!(t.note_chunk(&[9, 9]).is_none());
    let last = t.finish();
    assert_eq!(last.progress, 2);
    assert_eq!(last.total, 0);
    assert_eq!(last.status, "complete");
}

#[test]
fn upload_record_reports_the_exact_length() {
    let rec = upload_final_record(&"ul-z".to_string(), &"c.txt".to_string(), 11);
    assert_eq!(rec.progress, 11);
    assert_eq!(rec.total, 11);
    assert_eq!(rec.status, "complete");
}

#[test]
fn chunked_delivery_reassembles_byte_identically() {
    let uploaded: Vec<u8> = b"hello world".to_vec();
    // the remote side returns the stored bytes, split arbitrarily
    let chunks: Vec<Vec<u8>> = vec![b"hel".to_vec(), b"lo ".to_vec(), b"world".to_vec()];
    let downloaded = assemble_chunks(&chunks);
    assert_eq!(downloaded, uploaded);
    let rec = upload_final_record(
        &"ul-r".to_string(),
        &"d.txt".to_string(),
        uploaded.len() as u64,
    );
    assert_eq!(rec.total as usize, uploaded.len());
}

#[test]
fn assembling_nothing_yields_nothing() {
    let r = assemble_chunks(&Vec::new());
    assert!(r.is_empty());
}
