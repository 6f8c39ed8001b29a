//! Core of a small REST service for "rustacean" records: the Basic
//! credential guard, the record repository and the mapping of storage
//! outcomes onto HTTP error envelopes.
pub mod auth;
pub mod models;
pub mod repository;
pub mod responses;
pub mod handlers;
