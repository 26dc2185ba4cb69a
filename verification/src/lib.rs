//! Core of a small commenting service: a content sanitizer, a versioned
//! schema-migration engine over a modelled relational store, a comment store,
//! and a cross-origin access-control decision.

pub mod comment;
pub mod database;
pub mod error;
pub mod logging;
pub mod origin;
pub mod sanitize;
pub mod text;
