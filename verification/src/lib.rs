//! The core of a newsletter service: who is subscribed, who has confirmed,
//! and who may write to them.
//!
//! - [`web::data`] turns what a request carried into a subscriber that can be
//!   trusted, or says why not.
//! - [`token`] makes confirmation tokens and the links that carry them.
//! - [`model`] is the store of subscriptions, tokens and operators.
//! - [`web::auth`] reads an `Authorization` header and checks it against the
//!   stored operators.
//! - [`web::subscriptions`] and [`web::newsletter`] are the operations
//!   themselves; [`web::response`] sorts their failures.
//! - [`app`] is the context that the operations work in.
//!
//! Nothing here sends an email or opens a socket. An operation hands back
//! the emails to send, and is told afterwards how sending went.

pub mod app;
pub mod email_client;
pub mod model;
pub mod templ_manager;
mod text;
pub mod token;
pub mod utils;
pub mod web;
