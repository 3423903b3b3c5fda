//! The failures that the archive reports.

use crate::site_validation::{site_views, SiteInfo, SiteInfoView};
use crate::time::{Civil, Timestamp};
use vstd::prelude::*;

verus! {

/// A failure of the archive.
#[derive(Debug)]
pub enum Error {
    /// A general error with a message describing it.
    General(String),
    /// Cached bytes are not valid UTF-8 text.
    Decode,
    /// The file of a validated site could neither be read from the cache nor downloaded.
    DataNotAvailable,
    /// No data for that initialization time is available for any location.
    InitializationTimeNotAvailable(Timestamp),
    /// There was no match for the requested site, the internal value is the requested site.
    NoMatch(String),
    /// There were multiple matches for the requested site.
    AmbiguousSite {
        /// A list of sites that are potential matches.
        matches: Vec<SiteInfo>,
    },
}

/// What an `Error` holds, as mathematical values.
pub enum ErrorView {
    General(Seq<char>),
    Decode,
    DataNotAvailable,
    InitializationTimeNotAvailable(Civil),
    NoMatch(Seq<char>),
    AmbiguousSite { matches: Seq<SiteInfoView> },
}

impl View for Error {
    type V = ErrorView;

    open spec fn view(&self) -> ErrorView {
        match self {
            Error::General(msg) => ErrorView::General(msg@),
            Error::Decode => ErrorView::Decode,
            Error::DataNotAvailable => ErrorView::DataNotAvailable,
            Error::InitializationTimeNotAvailable(t) => ErrorView::InitializationTimeNotAvailable(
                t@,
            ),
            Error::NoMatch(site) => ErrorView::NoMatch(site@),
            Error::AmbiguousSite { matches } => ErrorView::AmbiguousSite {
                matches: site_views(matches@),
            },
        }
    }
}

impl Error {
    /// Create a new error.
    pub fn general_error(msg: String) -> (r: Self)
        ensures
            r@ == ErrorView::General(msg@),
    {
        Error::General(msg)
    }
}

} // verus!
