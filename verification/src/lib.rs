//! Detection of files whose content does not match the extension in their
//! name, and the deletion of what such a search has listed.
//!
//! A file is judged by two texts: the extension in its name and the
//! extension that its content calls for. [`token`] normalizes the first,
//! [`lookup`] gathers the extensions that share a media type with the second,
//! [`workarounds`] corrects what the media-type tables leave out, and
//! [`resolver`] gives the verdict. [`classifier`] turns a verdict into an
//! entry for the report, [`scan`] adds up the visits of a pass, [`engine`]
//! keeps the settings and findings of a search, and [`report`] writes the
//! findings out as text. [`deletion`] decides what goes when the user deletes
//! rows of a list of results.
//!
//! Reading files, walking directories, threads and windows are the caller's
//! business: the library takes what was read and says what follows.

pub mod class;
pub mod classifier;
pub mod deletion;
pub mod engine;
pub mod lookup;
pub mod order;
pub mod report;
pub mod resolver;
pub mod scan;
pub mod token;
pub mod workarounds;
