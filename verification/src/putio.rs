//! The put.io records that the proxy reads: transfers, file listings and
//! account details.

use vstd::prelude::*;

verus! {

/// Details of a put.io account.
#[derive(Debug)]
pub struct PutIOAccountInfo {
    pub username: String,
    pub mail: String,
    pub account_active: bool,
}

/// Body of put.io's account-info answer.
#[derive(Debug)]
pub struct PutIOAccountResponse {
    pub info: PutIOAccountInfo,
}

/// One put.io transfer (a torrent that put.io downloads into the cloud).
#[derive(Debug)]
pub struct PutIOTransfer {
    pub id: u64,
    pub hash: Option<String>,
    pub name: Option<String>,
    pub size: Option<i64>,
    pub downloaded: Option<i64>,
    pub finished_at: Option<String>,
    pub estimated_time: Option<i64>,
    pub status: String,
    pub started_at: Option<String>,
    pub error_message: Option<String>,
    pub file_id: Option<i64>,
    pub userfile_exists: bool,
}

impl PutIOTransfer {
    /// A transfer can be downloaded once put.io has stored its files.
    pub fn is_downloadable(&self) -> (r: bool)
        ensures
            r == self.file_id is Some,
    {
        self.file_id.is_some()
    }
}

/// Body of put.io's transfer-list answer.
#[derive(Debug)]
pub struct ListTransferResponse {
    pub transfers: Vec<PutIOTransfer>,
}

/// Body of put.io's single-transfer answer.
#[derive(Debug)]
pub struct GetTransferResponse {
    pub transfer: PutIOTransfer,
}

/// Body of put.io's download-URL answer.
#[derive(Debug)]
pub struct UrlResponse {
    pub url: String,
}

/// A put.io file or folder.
#[derive(Debug)]
pub struct FileResponse {
    pub content_type: String,
    pub id: i64,
    pub name: String,
    pub file_type: String,
}

/// Body of put.io's file-list answer: the listed entry and, for a folder,
/// its children.
#[derive(Debug)]
pub struct ListFileResponse {
    pub files: Vec<FileResponse>,
    pub parent: FileResponse,
}

} // verus!
