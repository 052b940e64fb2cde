//! Aggregation of a user's for-sale gamepasses from several upstream listings.
//!
//! An [`aggregator::Aggregator`] names each upstream call to make and takes
//! the decoded responses in turn; the caller performs the calls. Sources are
//! tried in order until one yields a pass; every pass kept has a positive
//! price, a creator (where reported) equal to the user, and an id of its own.
pub mod json;
pub mod pass;
pub mod decode;
pub mod catalog;
pub mod aggregator;
