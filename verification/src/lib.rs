//! Contacts directory core: a storage-agnostic contact repository with a
//! verified in-memory backend, pagination arithmetic, HTTP Basic-Auth
//! credential checking, and phone/email validation with an outcome policy
//! for an external verification service.

pub mod auth;
pub mod contact;
pub mod db;
pub mod errors;
pub mod in_memory;
pub mod pagination;
pub mod repository;
pub mod text;
pub mod validation;
