//! Keyset pagination over a store of transactions that is ordered by sort key.
//!
//! A listing names a merchant and may name a year, a month and a day, a card brand,
//! and cursors to continue after or to stop before. It becomes one bounded scan of
//! the store, newest record first, and the scan becomes a page: the records, each with
//! its own cursor, and the two signs that tell whether pages lie before and after.
//!
//! - [`timestamp`], [`keys`]: instants, and the sort keys that are ordered as they are.
//! - [`range`], [`bounds`]: the key range of a period, and how cursors tighten it.
//! - [`cursor`]: the opaque tokens that carry a key.
//! - [`store`], [`query`], [`page`]: the scan, the listings, and the pages.
//! - [`paging`]: what holds of paging through a listing.
//! - [`items`], [`records`], [`numbers`]: stored items and the records read from them.
//! - [`models`], [`roles`], [`error`], [`order`]: records, guards, errors, text order.

pub mod bounds;
pub mod cursor;
pub mod error;
pub mod items;
pub mod keys;
pub mod models;
pub mod numbers;
pub mod order;
pub mod page;
pub mod paging;
pub mod query;
pub mod range;
pub mod records;
pub mod roles;
pub mod store;
pub mod timestamp;
