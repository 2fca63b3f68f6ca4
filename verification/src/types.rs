//! Plain data exchanged between the downloader and its users.
use vstd::prelude::*;

verus! {

/// What the library learned about a thread from one of its pages.
#[derive(Debug, Clone)]
pub struct ThreadInfo {
    pub title: String,
    pub thread_id: String,
    pub total_pages: usize,
    pub current_pn: usize,
    pub page_size: usize,
}

/// The value of a [`ThreadInfo`].
pub struct ThreadInfoView {
    pub title: Seq<char>,
    pub thread_id: Seq<char>,
    pub total_pages: usize,
    pub current_pn: usize,
    pub page_size: usize,
}

impl View for ThreadInfo {
    type V = ThreadInfoView;

    open spec fn view(&self) -> ThreadInfoView {
        ThreadInfoView {
            title: self.title@,
            thread_id: self.thread_id@,
            total_pages: self.total_pages,
            current_pn: self.current_pn,
            page_size: self.page_size,
        }
    }
}

/// A progress report sent to whoever follows a download.
#[derive(Debug, Clone)]
pub enum DownloadInfo {
    /// A message with a level (`"info"`, `"error"`, `"success"`, ...).
    Text { message: String, level: String },
    /// How many pages of how many are done.
    Progress { current: u64, total: u64 },
}

/// Whether `d` is a text report with exactly this message and level.
pub open spec fn is_text_info(d: DownloadInfo, message: Seq<char>, level: Seq<char>) -> bool {
    d matches DownloadInfo::Text { message: m, level: l } && m@ == message && l@ == level
}

impl DownloadInfo {
    /// A text report with the given level.
    pub fn new_text(message: String, level: String) -> (r: Self)
        ensures
            is_text_info(r, message@, level@),
    {
        DownloadInfo::Text { message, level }
    }

    /// A text report at level `"info"`.
    pub fn new_info(message: String) -> (r: Self)
        ensures
            is_text_info(r, message@, "info"@),
    {
        DownloadInfo::Text { message, level: String::from_str("info") }
    }

    /// A text report at level `"error"`.
    pub fn new_error(message: String) -> (r: Self)
        ensures
            is_text_info(r, message@, "error"@),
    {
        DownloadInfo::Text { message, level: String::from_str("error") }
    }

    /// A progress report.
    pub fn new_progress(current: u64, total: u64) -> (r: Self)
        ensures
            r == (DownloadInfo::Progress { current, total }),
    {
        DownloadInfo::Progress { current, total }
    }
}

} // verus!
