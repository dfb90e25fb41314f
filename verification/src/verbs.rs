//! The simple command/response verbs.
//!
//! Each verb's decision side: given the driver's raw outcome, produce
//! the exact confirmation message or the exact error, with the verb's
//! short context prefix in front of the server's own report, verbatim.

use vstd::prelude::*;

use crate::errors::FtpError;
use crate::errors::is_op_error;
use crate::errors::is_transfer_error;
use crate::session::prefixed;
use crate::text::dec_seq;
use crate::text::u64_to_dec;

verus! {

/// A failed change of directory.
pub fn cwd_error(raw: &str) -> (e: FtpError)
    ensures
        is_op_error(e, "CWD failed: "@ + raw@),
{
    FtpError::OperationError(prefixed("CWD failed: ", raw))
}

/// A failed listing request.
pub fn list_error(raw: &str) -> (e: FtpError)
    ensures
        is_op_error(e, "LIST failed: "@ + raw@),
{
    FtpError::OperationError(prefixed("LIST failed: ", raw))
}

/// The working directory, or the exact error for a failed query.
pub fn pwd_finish(outcome: Result<String, String>) -> (r: Result<String, FtpError>)
    ensures
        outcome matches Ok(p) ==> (r matches Ok(q) && q@ == p@),
        outcome matches Err(raw) ==> (r matches Err(e) && is_op_error(e, "PWD failed: "@ + raw@)),
{
    match outcome {
        Ok(p) => Ok(p),
        Err(raw) => Err(FtpError::OperationError(prefixed("PWD failed: ", raw.as_str()))),
    }
}

/// The confirmation or error of a file deletion.
pub fn delete_finish(path: &str, outcome: Result<(), String>) -> (r: Result<String, FtpError>)
    ensures
        outcome is Ok ==> (r matches Ok(m) && m@ == "Deleted file: "@ + path@),
        outcome matches Err(raw) ==> (r matches Err(e) && is_op_error(
            e,
            "Delete failed: "@ + raw@,
        )),
{
    match outcome {
        Ok(_) => Ok(prefixed("Deleted file: ", path)),
        Err(raw) => Err(FtpError::OperationError(prefixed("Delete failed: ", raw.as_str()))),
    }
}

/// The confirmation or error of a directory removal. The removal is
/// not recursive: the server refuses a non-empty directory, and that
/// refusal comes back in the error.
pub fn remove_dir_finish(path: &str, outcome: Result<(), String>) -> (r: Result<String, FtpError>)
    ensures
        outcome is Ok ==> (r matches Ok(m) && m@ == "Deleted directory: "@ + path@),
        outcome matches Err(raw) ==> (r matches Err(e) && is_op_error(
            e,
            "Delete generic failed (directory must be empty): "@ + raw@,
        )),
{
    match outcome {
        Ok(_) => Ok(prefixed("Deleted directory: ", path)),
        Err(raw) => Err(
            FtpError::OperationError(
                prefixed("Delete generic failed (directory must be empty): ", raw.as_str()),
            ),
        ),
    }
}

/// The confirmation or error of a rename.
pub fn rename_finish(old_path: &str, new_path: &str, outcome: Result<(), String>) -> (r: Result<
    String,
    FtpError,
>)
    ensures
        outcome is Ok ==> (r matches Ok(m) && m@ == "Renamed "@ + old_path@ + " to "@
            + new_path@),
        outcome matches Err(raw) ==> (r matches Err(e) && is_op_error(
            e,
            "Rename failed: "@ + raw@,
        )),
{
    match outcome {
        Ok(_) => {
            let head = prefixed("Renamed ", old_path);
            let tail = prefixed(" to ", new_path);
            let r = prefixed(head.as_str(), tail.as_str());
            proof {
                assert(r@ =~= "Renamed "@ + old_path@ + " to "@ + new_path@);
            }
            Ok(r)
        },
        Err(raw) => Err(FtpError::OperationError(prefixed("Rename failed: ", raw.as_str()))),
    }
}

/// The confirmation or error of a directory creation.
pub fn make_dir_finish(path: &str, outcome: Result<(), String>) -> (r: Result<String, FtpError>)
    ensures
        outcome is Ok ==> (r matches Ok(m) && m@ == "Created directory: "@ + path@),
        outcome matches Err(raw) ==> (r matches Err(e) && is_op_error(
            e,
            "Mkdir failed: "@ + raw@,
        )),
{
    match outcome {
        Ok(_) => Ok(prefixed("Created directory: ", path)),
        Err(raw) => Err(FtpError::OperationError(prefixed("Mkdir failed: ", raw.as_str()))),
    }
}

/// The size probe is best effort: a failure means "unknown", reported
/// as zero, never as an error.
pub fn size_or_zero(outcome: Result<u64, String>) -> (r: u64)
    ensures
        outcome matches Ok(n) ==> r == n,
        outcome is Err ==> r == 0,
{
    match outcome {
        Ok(n) => n,
        Err(_) => 0,
    }
}

/// A failed transfer start on the data connection.
pub fn download_error(raw: &str) -> (e: FtpError)
    ensures
        is_transfer_error(e, "Download failed: "@ + raw@),
{
    FtpError::TransferError(prefixed("Download failed: ", raw))
}

/// A failure creating or writing the local destination of a download.
pub fn capture_error(raw: &str) -> (e: FtpError)
    ensures
        is_transfer_error(e, "Capture failed: "@ + raw@),
{
    FtpError::TransferError(prefixed("Capture failed: ", raw))
}

/// A failure closing out a retrieval stream.
pub fn finalize_error(raw: &str) -> (e: FtpError)
    ensures
        is_transfer_error(e, "Finalize failed: "@ + raw@),
{
    FtpError::TransferError(prefixed("Finalize failed: ", raw))
}

/// A failure reading the local payload of an upload.
pub fn read_error(raw: &str) -> (e: FtpError)
    ensures
        is_transfer_error(e, "Read failed: "@ + raw@),
{
    FtpError::TransferError(prefixed("Read failed: ", raw))
}

/// A failed upload on the data connection.
pub fn upload_error(raw: &str) -> (e: FtpError)
    ensures
        is_transfer_error(e, "Upload failed: "@ + raw@),
{
    FtpError::TransferError(prefixed("Upload failed: ", raw))
}

/// The confirmation of a finished download.
pub fn downloaded_message(remote_name: &str) -> (m: String)
    ensures
        m@ == "Downloaded "@ + remote_name@,
{
    prefixed("Downloaded ", remote_name)
}

/// The confirmation of a finished upload.
pub fn uploaded_message(remote_name: &str) -> (m: String)
    ensures
        m@ == "Uploaded "@ + remote_name@,
{
    prefixed("Uploaded ", remote_name)
}

/// The confirmation of a finished folder download, with the byte
/// total.
pub fn downloaded_folder_message(remote_dir: &str, bytes: u64) -> (m: String)
    ensures
        m@ == "Downloaded folder '"@ + remote_dir@ + "' ("@ + dec_seq(bytes as nat) + " bytes)"@,
{
    let head = prefixed("Downloaded folder '", remote_dir);
    let count = u64_to_dec(bytes);
    let mid = prefixed("' (", count.as_str());
    let tail = prefixed(mid.as_str(), " bytes)");
    let m = prefixed(head.as_str(), tail.as_str());
    proof {
        assert(m@ =~= "Downloaded folder '"@ + remote_dir@ + "' ("@ + dec_seq(bytes as nat)
            + " bytes)"@);
    }
    m
}

} // verus!
