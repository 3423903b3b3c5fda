//! An archive of NBM 1D viewer text files organized by initialization time and site.
//!
//! The crate is the decision core of the archive: it resolves request times to model
//! runs, builds archive addresses, resolves site names against a locations table and
//! sequences the cache and download steps of a request. It performs no I/O itself.

pub mod download;
pub mod error;
pub mod nbm_data;
pub mod nbm_store;
pub mod site_validation;
pub mod text;
pub mod time;

pub use crate::error::Error;
pub use crate::nbm_data::NBMData;
pub use crate::nbm_store::{Action, Event, NBMStore, Step};
pub use crate::site_validation::{SiteInfo, SiteValidation};
pub use crate::time::Timestamp;
