use vstd::prelude::*;

verus! {

/// A link to an image.
pub type UrlString = String;

/// A thumbnail picture of a video.
#[derive(Debug, Clone)]
pub struct Thumbnail {
    pub height: u16,
    pub width: u16,
    pub url: UrlString,
}

/// The kind of page that the backend's extractor recognised.
#[derive(Debug, Clone, Copy, PartialEq, Eq, Structural)]
pub enum YTIEKey {
    Youtube,
    YoutubeTab,
    YoutubeMusicSearchURL,
}

/// One result of a search.
#[derive(Debug, Clone)]
pub struct YTSearchEntry {
    pub id: String,
    pub title: Option<String>,
    pub ie_key: YTIEKey,
    pub url: UrlString,
}

/// The answer to a search.
#[derive(Debug, Clone)]
pub struct YTMSearch {
    pub title: String,
    pub webpage_url: UrlString,
    pub entries: Vec<YTSearchEntry>,
}

/// An answer of the backend that could not be read.
#[derive(Debug, Clone, Copy, PartialEq, Eq, Structural)]
pub enum YTResponseError {
    ParseErr,
}

} // verus!
