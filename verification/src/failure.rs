//! The failures that stop a traversal, each with the path or URL at fault.

use crate::message::{error_text, make_error_message};
use crate::segments::{join_path, join_segments, texts};
use crate::url::UrlError;
use vstd::prelude::*;

verus! {

/// Why a traversal stopped, as a mathematical value.
pub enum WalkErrorView {
    FetchError { url: Seq<char> },
    MalformedListingError { url: Seq<char> },
    UnknownEntryKind { path: Seq<char>, content_type: Seq<char> },
    PrefixMismatch { path: Seq<char> },
    IoError { place: Seq<Seq<char>> },
}

/// Why a traversal stopped.
#[derive(Debug, PartialEq, Eq)]
pub enum WalkError {
    /// The page or the file at `url` could not be fetched.
    FetchError { url: String },
    /// The page at `url` carries a block that holds no listing.
    MalformedListingError { url: String },
    /// The entry at `path` has a `contentType` that is not known.
    UnknownEntryKind { path: String, content_type: String },
    /// The file at `path` does not lie below the requested directory.
    PrefixMismatch { path: String },
    /// The file for `place` below the output directory could not be written;
    /// with no segment in `place`, the output directory could not be made.
    IoError { place: Vec<String> },
}

impl View for WalkError {
    type V = WalkErrorView;

    open spec fn view(&self) -> WalkErrorView {
        match self {
            WalkError::FetchError { url } => WalkErrorView::FetchError { url: url@ },
            WalkError::MalformedListingError { url } => WalkErrorView::MalformedListingError { url: url@ },
            WalkError::UnknownEntryKind { path, content_type } => WalkErrorView::UnknownEntryKind {
                path: path@,
                content_type: content_type@,
            },
            WalkError::PrefixMismatch { path } => WalkErrorView::PrefixMismatch { path: path@ },
            WalkError::IoError { place } => WalkErrorView::IoError { place: texts(place@) },
        }
    }
}

impl WalkErrorView {
    /// The message for the error: what failed, and where.
    pub open spec fn message_text(self) -> Seq<char> {
        match self {
            WalkErrorView::FetchError { url } => error_text("cannot fetch '"@ + url + "'"@),
            WalkErrorView::MalformedListingError { url } => error_text(
                "cannot read the listing of '"@ + url + "'"@,
            ),
            WalkErrorView::UnknownEntryKind { path, content_type } => error_text(
                "Cannot handle item type '"@ + content_type + "' of '"@ + path + "'"@,
            ),
            WalkErrorView::PrefixMismatch { path } => UrlError::PrefixMismatch.message_text(path),
            WalkErrorView::IoError { place } => if place.len() == 0 {
                error_text("cannot make the output directory"@)
            } else {
                error_text("cannot write '"@ + join_segments(place) + "'"@)
            },
        }
    }
}

impl WalkError {
    /// The message for the error: what failed, and where.
    pub fn message(&self) -> (text: String)
        ensures
            text@ == self@.message_text(),
    {
        match self {
            WalkError::FetchError { url } => make_error_message(
                String::from_str("cannot fetch '").concat(url.as_str()).concat("'"),
            ),
            WalkError::MalformedListingError { url } => make_error_message(
                String::from_str("cannot read the listing of '").concat(url.as_str()).concat("'"),
            ),
            WalkError::UnknownEntryKind { path, content_type } => make_error_message(
                String::from_str("Cannot handle item type '").concat(content_type.as_str()).concat(
                    "' of '",
                ).concat(path.as_str()).concat("'"),
            ),
            WalkError::PrefixMismatch { path } => UrlError::PrefixMismatch.message(path.as_str()),
            WalkError::IoError { place } => if place.len() == 0 {
                make_error_message(String::from_str("cannot make the output directory"))
            } else {
                make_error_message(
                    String::from_str("cannot write '").concat(join_path(place).as_str()).concat(
                        "'",
                    ),
                )
            },
        }
    }
}

} // verus!
