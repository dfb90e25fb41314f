//! Local-side value types and the icon data-URL rule.
//!
//! Browsing the local filesystem and looking an icon up are outside
//! collaborators' work; the engine owns the entry type, the rule that
//! normalizes an extension for the lookup, and the rule that turns the
//! icon bytes into a `data:` URL.

use vstd::prelude::*;
use vstd::string::StrSliceExecFns;
use vstd::string::StringExecFns;

use crate::session::prefixed;

verus! {

/// One entry of a local directory listing.
#[derive(Debug, Clone)]
pub struct FileEntry {
    pub name: String,
    pub path: String,
    pub is_dir: bool,
    pub size: u64,
}

/// The extension handed to the icon lookup, with exactly one leading
/// dot; an empty extension is rejected.
pub open spec fn normalized_extension(ext: Seq<char>) -> Option<Seq<char>> {
    if ext.len() > 0 && ext[0] == '.' {
        Some(ext)
    } else if ext.len() == 0 {
        None
    } else {
        Some(seq!['.'] + ext)
    }
}

/// Normalize an extension for the icon lookup.
pub fn normalize_extension(ext: &str) -> (r: Result<String, String>)
    ensures
        (match normalized_extension(ext@) {
            Some(n) => r matches Ok(s) && s@ == n,
            None => r matches Err(m) && m@ == "Empty extension"@,
        }),
{
    proof {
        reveal_strlit(".");
    }
    let n = ext.unicode_len();
    if n > 0 && ext.get_char(0) == '.' {
        Ok(ext.to_owned())
    } else if n == 0 {
        Err(String::from_str("Empty extension"))
    } else {
        let r = prefixed(".", ext);
        proof {
            assert(r@ =~= seq!['.'] + ext@);
        }
        Ok(r)
    }
}

/// The standard base64 form of a byte string, with padding: the
/// icon's wire encoding.
pub uninterp spec fn base64_of(b: Seq<u8>) -> Seq<char>;

/// Relies on `base64::engine::general_purpose::STANDARD.encode`: the
/// RFC 4648 standard alphabet with padding, a function of the bytes
/// alone; four output characters for every started group of three
/// input bytes.
#[verifier::external_body]
fn base64_encode(b: &Vec<u8>) -> (r: String)
    requires
        4 * ((b@.len() + 2) / 3) <= usize::MAX,
    ensures
        r@ == base64_of(b@),
        r@.len() == 4 * ((b@.len() + 2) / 3),
{
    base64::Engine::encode(&base64::engine::general_purpose::STANDARD, b.as_slice())
}

/// The icon bytes as a PNG data URL.
pub fn icon_data_url(icon: &Vec<u8>) -> (r: String)
    requires
        4 * ((icon@.len() + 2) / 3) <= usize::MAX,
    ensures
        r@ == "data:image/png;base64,"@ + base64_of(icon@),
{
    let encoded = base64_encode(icon);
    prefixed("data:image/png;base64,", encoded.as_str())
}

} // verus!
