//! Reputation lookup for executable import tables.
//!
//! A [`cache::Cache`] holds, per category of suspicious behaviour, the API
//! records known for it, and can be persisted as MessagePack. The
//! [`matcher`] intersects the import names of a sample with every category.
//! The [`sync`] module plans the rebuilding of a store from the remote
//! source under a cap on simultaneous requests, reading the pages with
//! [`fetch`]; the [`manager`] decides between loading the persisted store
//! and rebuilding it. [`extract`] takes the import names out of a sample, and
//! [`output`] holds what a renderer is handed.
//!
//! Nothing here reads a file or talks to the network: whoever uses the
//! library does that, as [`sync::Synchronizer`] and [`manager::step`] tell.

pub mod cache;
pub mod codec;
pub mod display;
pub mod error;
pub mod extract;
pub mod fetch;
pub mod manager;
pub mod matcher;
pub mod output;
pub mod scrape;
pub mod sync;
