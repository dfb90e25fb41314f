//! Saved connection settings.
//!
//! The engine does not persist these; an outside collaborator reads
//! and writes them. The types and the empty default live here.

use vstd::prelude::*;

verus! {

/// One saved FTP connection.
#[derive(Debug, Clone)]
pub struct FtpConnection {
    pub id: String,
    pub name: String,
    pub host: String,
    pub port: u16,
    pub username: String,
    pub password: Option<String>,
    pub secure: bool,
}

/// One saved cloud-provider connection.
#[derive(Debug, Clone)]
pub struct CloudConnection {
    pub id: String,
    pub provider: String,
    pub account_name: String,
    pub client_id: String,
    pub client_secret: String,
    pub access_token: String,
    pub refresh_token: Option<String>,
}

/// Everything the application persists.
#[derive(Debug, Clone)]
pub struct AppConfig {
    pub ftp_connections: Vec<FtpConnection>,
    pub cloud_connections: Vec<CloudConnection>,
    pub theme: Option<String>,
}

/// The configuration used when none is saved yet: no connections, no
/// theme choice.
pub fn empty_config() -> (c: AppConfig)
    ensures
        c.ftp_connections@.len() == 0,
        c.cloud_connections@.len() == 0,
        c.theme is None,
{
    AppConfig { ftp_connections: Vec::new(), cloud_connections: Vec::new(), theme: None }
}

impl Default for AppConfig {
    /// The empty configuration.
    fn default() -> (c: AppConfig)
        ensures
            c.ftp_connections@.len() == 0,
            c.cloud_connections@.len() == 0,
            c.theme is None,
    {
        empty_config()
    }
}

} // verus!
