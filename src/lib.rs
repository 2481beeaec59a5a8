//! Core of a developer-account and device-provisioning client: the login
//! flow against the identity service, the stored-account set, the
//! provisioning client's requests and replies, the set of attached devices,
//! and the small pieces of front-end state built on them.

pub mod error;
pub mod plist_value;
pub mod sanitize;

pub mod auth;
pub mod login;

pub mod account;
pub mod store;

pub mod provisioning;

pub mod devices;

pub mod screens;
