//! Failures that the font manager reports to its caller.

use vstd::prelude::*;
use vstd::string::*;
use zip::result::ZipError;

verus! {

/// Why a request was refused or came to nothing.
#[derive(Debug, PartialEq, Eq)]
pub enum FontError {
    /// The request names no source, several sources, or an unknown font.
    CommandError(String),
    /// The user's home directory cannot be resolved.
    HomeNotFound,
    /// The archive's path or URL has no usable base name.
    InvalidPath,
    /// The extraction ran to its end and wrote nothing.
    FontsIgnored,
}

/// Why an extraction stopped before its end.
#[derive(Debug)]
pub enum ExtractError {
    /// The archive reader failed on the archive or on one of its entries.
    Archive(ZipError),
    /// The archive lists more entries than an extraction can count.
    TooManyEntries,
    /// An entry has a place in the font directory, and the user's home
    /// directory cannot be resolved.
    HomeNotFound,
}

/// The mathematical value of a [`FontError`].
pub enum FontErrorView {
    CommandError(Seq<char>),
    HomeNotFound,
    InvalidPath,
    FontsIgnored,
}

impl View for FontError {
    type V = FontErrorView;

    open spec fn view(&self) -> FontErrorView {
        match self {
            FontError::CommandError(text) => FontErrorView::CommandError(text@),
            FontError::HomeNotFound => FontErrorView::HomeNotFound,
            FontError::InvalidPath => FontErrorView::InvalidPath,
            FontError::FontsIgnored => FontErrorView::FontsIgnored,
        }
    }
}

/// The text shown to the user for an error.
pub open spec fn message_of(e: FontErrorView) -> Seq<char> {
    match e {
        FontErrorView::CommandError(text) => "invalid comand: `"@ + text + "`"@,
        FontErrorView::HomeNotFound => "home folder not found, $HOME might not be set"@,
        FontErrorView::InvalidPath => "the provided path doesn't exist or is damaged"@,
        FontErrorView::FontsIgnored => "no fonts were installed! check if the files were ignored"@,
    }
}

impl FontError {
    /// The text shown to the user for this error.
    pub fn message(&self) -> (text: String)
        ensures
            text@ == message_of(self@),
    {
        match self {
            FontError::CommandError(detail) => {
                let mut text = String::from_str("invalid comand: `");
                text.append(detail.as_str());
                text.append("`");
                text
            },
            FontError::HomeNotFound => String::from_str(
                "home folder not found, $HOME might not be set",
            ),
            FontError::InvalidPath => String::from_str(
                "the provided path doesn't exist or is damaged",
            ),
            FontError::FontsIgnored => String::from_str(
                "no fonts were installed! check if the files were ignored",
            ),
        }
    }
}

} // verus!
