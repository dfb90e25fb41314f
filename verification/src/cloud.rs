//! Cloud-side data types and their mapping rules.
//!
//! The cloud REST clients and the OAuth exchange are outside
//! collaborators; the engine owns only their value types and the pure
//! rules that turn a provider's raw file record into a `CloudEntry`.

use vstd::prelude::*;
use vstd::string::StringExecFns;

use crate::text::dec_value;
use crate::text::u64_body;
use crate::text::u64_str_valid;
use crate::text::parse_u64;

verus! {

/// One entry of a cloud folder listing.
#[derive(Debug, Clone)]
pub struct CloudEntry {
    pub name: String,
    pub is_dir: bool,
    pub size: Option<u64>,
    pub last_modified: Option<String>,
    pub id: Option<String>,
}

/// The tokens produced by a finished authorization exchange.
#[derive(Debug, Clone)]
pub struct OAuthTokens {
    pub access_token: String,
    pub refresh_token: Option<String>,
    pub expires_in: Option<u64>,
}

/// Build an entry from a Google Drive file record: a folder is
/// recognized by its folder MIME type, and the size — reported as a
/// decimal string — is parsed best-effort.
pub fn cloud_entry_from_google(
    id: String,
    name: String,
    mime_type: &String,
    size: Option<String>,
    modified_time: Option<String>,
) -> (r: CloudEntry)
    ensures
        r.name@ == name@,
        r.is_dir <==> mime_type@ == "application/vnd.google-apps.folder"@,
        (match size {
            Some(s) => (u64_str_valid(s@) ==> (r.size matches Some(v) && v as nat == dec_value(
                u64_body(s@),
            ))) && (!u64_str_valid(s@) ==> r.size is None),
            None => r.size is None,
        }),
        (match modified_time {
            Some(m) => r.last_modified matches Some(lm) && lm@ == m@,
            None => r.last_modified is None,
        }),
        r.id matches Some(i) && i@ == id@,
{
    let folder_mime = String::from_str("application/vnd.google-apps.folder");
    let is_dir = *mime_type == folder_mime;
    let parsed_size = match &size {
        Some(s) => parse_u64(s.as_str()),
        None => None,
    };
    CloudEntry { name, is_dir, size: parsed_size, last_modified: modified_time, id: Some(id) }
}

/// Build an entry from a Dropbox record: a folder is recognized by its
/// tag, and the size comes through as reported.
pub fn cloud_entry_from_dropbox(
    id: String,
    name: String,
    tag: &String,
    size: Option<u64>,
    server_modified: Option<String>,
) -> (r: CloudEntry)
    ensures
        r.name@ == name@,
        r.is_dir <==> tag@ == "folder"@,
        r.size == size,
        (match server_modified {
            Some(m) => r.last_modified matches Some(lm) && lm@ == m@,
            None => r.last_modified is None,
        }),
        r.id matches Some(i) && i@ == id@,
{
    let folder_tag = String::from_str("folder");
    let is_dir = *tag == folder_tag;
    CloudEntry { name, is_dir, size, last_modified: server_modified, id: Some(id) }
}

} // verus!
