pub mod auth;
pub mod data;
pub mod newsletter;
pub mod response;
pub mod subscriptions;
