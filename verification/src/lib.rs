//! Fetching one directory of a GitHub repository: the URL model, the reading of
//! directory listings and the traversal, as verified logic without any I/O.

pub mod failure;
pub mod json;
pub mod listing;
pub mod message;
pub mod options;
pub mod segments;
pub mod site;
pub mod text;
pub mod traversal;
pub mod url;
pub mod walk;
