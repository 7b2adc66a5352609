//! The external text file into which the active prompt is mirrored.

use crate::error::{AppError, AppErrorView};
use vstd::prelude::*;

verus! {

/// What is known of the external file.
#[derive(Debug, PartialEq, Eq)]
pub enum PromptFile {
    /// The directory in which the file lies could not be resolved.
    Unlocated,
    /// No file is there.
    Missing,
    /// A file is there and cannot be read; `reason` is the system's message.
    Unreadable { path: String, reason: String },
    /// The file and its whole content.
    Present(String),
}

/// The mathematical value of a [`PromptFile`].
pub enum PromptFileView {
    Unlocated,
    Missing,
    Unreadable { path: Seq<char>, reason: Seq<char> },
    Present(Seq<char>),
}

impl View for PromptFile {
    type V = PromptFileView;

    open spec fn view(&self) -> PromptFileView {
        match self {
            PromptFile::Unlocated => PromptFileView::Unlocated,
            PromptFile::Missing => PromptFileView::Missing,
            PromptFile::Unreadable { path, reason } => PromptFileView::Unreadable {
                path: path@,
                reason: reason@,
            },
            PromptFile::Present(content) => PromptFileView::Present(content@),
        }
    }
}

/// The error for a file whose directory is unknown.
pub open spec fn unlocated_error() -> AppErrorView {
    AppErrorView::Config("Cannot find home directory"@)
}

/// What reading the file gives: its content, nothing where no file is there,
/// or the error that stands in the way.
pub open spec fn read_result(file: PromptFileView) -> Result<Option<Seq<char>>, AppErrorView> {
    match file {
        PromptFileView::Unlocated => Err(unlocated_error()),
        PromptFileView::Missing => Ok(None),
        PromptFileView::Unreadable { path, reason } => Err(
            AppErrorView::Io { path, source: reason },
        ),
        PromptFileView::Present(content) => Ok(Some(content)),
    }
}

/// The value of what a read returned.
pub open spec fn content_view(r: Result<Option<String>, AppError>) -> Result<
    Option<Seq<char>>,
    AppErrorView,
> {
    match r {
        Ok(Some(content)) => Ok(Some(content@)),
        Ok(None) => Ok(None),
        Err(e) => Err(e@),
    }
}

impl PromptFile {
    /// Whether the place of the file is known.
    pub fn is_located(&self) -> (r: bool)
        ensures
            r == !(self@ is Unlocated),
    {
        match self {
            PromptFile::Unlocated => false,
            _ => true,
        }
    }

    /// The error that stands in the way of reading the file, if any.
    pub fn failure(&self) -> (r: Option<AppError>)
        ensures
            match r {
                Some(e) => read_result(self@) == Err::<Option<Seq<char>>, AppErrorView>(e@),
                None => read_result(self@) is Ok,
            },
    {
        match self {
            PromptFile::Unlocated => Some(
                AppError::Config(String::from_str("Cannot find home directory")),
            ),
            PromptFile::Unreadable { path, reason } => Some(
                AppError::io(path.as_str(), reason.as_str()),
            ),
            _ => None,
        }
    }

    /// The content of the file, or nothing where no file is there.
    pub fn read(&self) -> (r: Result<Option<String>, AppError>)
        ensures
            content_view(r) == read_result(self@),
    {
        match self {
            PromptFile::Unlocated => Err(
                AppError::Config(String::from_str("Cannot find home directory")),
            ),
            PromptFile::Missing => Ok(None),
            PromptFile::Unreadable { path, reason } => Err(
                AppError::io(path.as_str(), reason.as_str()),
            ),
            PromptFile::Present(content) => Ok(Some(content.clone())),
        }
    }

    /// Replaces the whole content of the file.
    pub fn write(&mut self, content: &str)
        ensures
            final(self)@ == PromptFileView::Present(content@),
    {
        *self = PromptFile::Present(content.to_owned());
    }
}

} // verus!
