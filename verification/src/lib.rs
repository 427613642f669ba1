//! Keeps the links of a hosted link shortener in step with a list of social
//! profiles.
//!
//! The library decides and the caller talks to the network: every function
//! here takes what has come back from the service so far as plain values and
//! answers with the request to send next, the finished result, or the error
//! that ends the run.

pub mod json;
pub mod link;
pub mod wire;
pub mod lister;
pub mod sync;

pub use json::{parse_json, Json};
pub use link::{Link, Social};
pub use lister::{get_links, links_of_document, read_link, ListError, Listing};
pub use sync::{link_exists, request_for_social, update_social_links, Notice, Run, Step, SyncError};
pub use wire::{Method, Reply, Request};
