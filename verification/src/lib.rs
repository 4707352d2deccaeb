//! Fulcrum: a database of keys and values, behind two services.
//!
//! The *data tree* ([`data_tree::DataTreeServer`]) keeps values under texts; the *content tree*
//! ([`cdn::CdnServer`]) keeps values under names, and long values in parts. Both keep their
//! entries in a [`store::Store`], whose contents are a map from key bytes to value bytes, and
//! both are made of the operations in [`data_access`].
//!
//! What an operation does is stated over the contents before and after it. The storage engine
//! may fail at any call; an operation then reports the failure, and where it was about to write,
//! nothing is said of the contents. It reports no other failures: see [`store::reported`].
//!
//! The laws of the database stand in the modules whose names end in `laws`. Those that speak of
//! calls say what an answer means in terms of the bytes that a store holds.
pub mod cdn;
pub mod content_laws;
pub mod data_access;
pub mod data_tree;
pub mod data_tree_laws;
pub mod entry_laws;
pub mod error_handling;
pub mod key_laws;
pub mod key_order;
pub mod laws;
pub mod message_laws;
pub mod page_laws;
pub mod pb;
pub mod search_laws;
pub mod store;
pub mod store_laws;
pub mod stream_laws;
pub mod walk_laws;
pub mod wire;
