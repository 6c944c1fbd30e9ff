use vstd::prelude::*;

verus! {

/// Every failure the engine can report.
///
/// The file-related variants carry a short role name (for example
/// "feeds file") and the offending path.  The feed-content variants carry
/// the URL of the feed whose item was malformed.  The variants that stand
/// for a remote or local fault carry a human-readable detail line.
#[derive(Debug)]
pub enum Error {
    /// A configured file does not exist.
    NotFound(String, String),
    /// A configured path is not a regular file.
    NotAFile(String, String),
    /// A configured file cannot be opened for reading.
    NotReadable(String, String),
    /// A configured file is empty.
    EmptyFile(String, String),
    /// A feed item has no publish date.
    NoPublishDate(String),
    /// A feed item has a publish date that is not valid RFC 2822 text.
    InvalidPublishDate(String),
    /// A new feed item has no title.
    NoTitle(String),
    /// A new feed item has no link.
    NoLink(String),
    /// A new feed item has no description.
    NoDescription(String),
    /// The media upload stayed pending past the attempt bound; carries the
    /// pending media id.
    ImageTimeout(String),
    /// A feed-list line is not a valid URL.
    InvalidUrl(String),
    /// The HTTP fetch of a feed failed; carries the transport detail.
    Request(String),
    /// The feed body could not be parsed; carries the parser detail.
    Rss(String),
    /// A local file operation failed.
    Io(String),
    /// A call against the posting instance failed; carries the API detail.
    Megalodon(String),
    /// A command-line flag was not given at all.
    MissingArgument(String),
    /// A command-line flag was given without its value.
    UncompletedArgument(String),
}

impl Error {
    /// A recoverable error is one of the two remote classes: the fetch
    /// transport and the posting API.  A round that ends in one of these is
    /// retried on the next round; every other error is fatal to the run.
    pub open spec fn recoverable(self) -> bool {
        self is Request || self is Megalodon
    }

    /// Decides whether the run may continue after this error.
    pub fn is_recoverable(&self) -> (r: bool)
        ensures
            r == self.recoverable(),
    {
        match self {
            Error::Request(_) => true,
            Error::Megalodon(_) => true,
            _ => false,
        }
    }
}

} // verus!
