//! The per-provider upload results and token records: plain data that
//! the adapters fill in and the UI reads.

use vstd::prelude::*;

verus! {

/// An upload to the video-site image host.
pub struct BilibiliUploadResult {
    pub url: String,
    pub size: u64,
}

/// An upload to the courseware host.
pub struct ChaoxingUploadResult {
    pub url: String,
    pub size: u64,
}

/// An upload committed to a repository.
pub struct GithubUploadResult {
    pub url: String,
    pub sha: Option<String>,
    pub remote_path: Option<String>,
}

/// An upload to the imgur host, with its deletion handle.
pub struct ImgurUploadResult {
    pub url: String,
    pub delete_hash: Option<String>,
}

/// An upload to the shopping-site image host.
pub struct JDUploadResult {
    pub url: String,
    pub size: u64,
}

/// An upload to the interview-site image host.
pub struct NowcoderUploadResult {
    pub url: String,
    pub size: u64,
}

/// An upload to the service-desk image host.
pub struct QiyuUploadResult {
    pub url: String,
    pub size: u64,
}

/// A short-lived upload token for the service-desk host.
pub struct QiyuToken {
    pub token: String,
    pub object_path: String,
    pub expires: i64,
}

/// The rotating header set the token service hands out.
pub struct NamiDynamicHeaders {
    pub access_token: String,
    pub zm_token: String,
    pub zm_ua: String,
    pub timestamp: String,
    pub sid: String,
    pub mid: String,
    pub request_id: String,
    pub header_tid: String,
}

/// An upload to the free image host, with its deletion link.
pub struct SmmsUploadResult {
    pub url: String,
    pub delete: Option<String>,
    pub hash: Option<String>,
}

/// An upload to the appliance-vendor image host.
pub struct TCLUploadResult {
    pub url: String,
    pub size: u64,
}

/// An upload to the R2 store.
pub struct R2UploadResult {
    pub e_tag: Option<String>,
    pub size: u64,
}

/// One progress notification, keyed by the upload it belongs to.
pub struct ProgressPayload {
    pub id: String,
    pub progress: u64,
    pub total: u64,
}

impl ProgressPayload {
    /// A progress notification never reports more than its total.
    pub fn new_clamped(id: String, progress: u64, total: u64) -> (p: ProgressPayload)
        ensures
            p.id@ == id@,
            p.total == total,
            p.progress <= p.total,
            progress <= total ==> p.progress == progress,
    {
        ProgressPayload { id, progress: if progress <= total { progress } else { total }, total }
    }
}

} // verus!
