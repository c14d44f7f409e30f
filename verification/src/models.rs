//! The records the library works on, as plain values.

use vstd::prelude::*;

verus! {

/// A captured item (clipboard text, link, screenshot or imported file) with what has been
/// derived from it.
pub struct CapturedContent {
    pub id: String,
    /// RFC 3339 capture time.
    pub captured_at: String,
    /// `text`, `url` or `image`.
    pub content_type: String,
    pub source_app: String,
    pub source_url: Option<String>,
    pub raw_text: Option<String>,
    pub clean_content: Option<String>,
    pub summary: Option<String>,
    pub tags: Option<String>,
    pub digest: Option<String>,
    pub user_note: Option<String>,
    pub image_path: Option<String>,
    pub wiki_assessed_hash: Option<String>,
    pub wiki_compile_hash: Option<String>,
}

/// A capture about to be saved: what the watcher reported, with defaults filled in.
pub struct CaptureEvent {
    pub content_type: String,
    pub preview: String,
    pub source_app: String,
    pub raw_text: Option<String>,
    pub image_path: Option<String>,
}

/// A stored run of the attention radar.
pub struct AttentionInsight {
    pub id: i64,
    /// `analyzing`, `complete` or `error`.
    pub status: String,
    /// The report, as JSON, once complete.
    pub report_json: Option<String>,
    /// RFC 3339 bounds of the items read.
    pub window_start: String,
    pub window_end: String,
    pub item_count: i32,
    pub model: String,
    /// RFC 3339 time the run started.
    pub analyzed_at: String,
    pub error_message: Option<String>,
}

} // verus!
