//! A small link-shortening service core: a hand-rolled HTTP/1.x request
//! parser, a path/method dispatcher with authentication gating, a
//! time-bounded session-validity check, handlers for creating, resolving,
//! listing and deleting short links, and a bounded worker-pool admission
//! model. The record store is a key-value collaborator reached through the
//! `store` module's interfaces.

pub mod auth;
pub mod dec;
pub mod delete_handler;
pub mod get_all_handler;
pub mod handlers;
pub mod link_handler;
pub mod new_handler;
pub mod outside;
pub mod pool;
pub mod request;
pub mod router;
pub mod store;
pub mod text;
pub mod url_record;
