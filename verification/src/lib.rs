//! The logic of a connector to DuckDB and MotherDuck databases, with its contracts proved.
//!
//! A host calls the connector with JSON requests: to connect, to query, to list the catalog, to
//! close. This crate decides what such a call does and what it answers; it performs no input or
//! output of its own. A call starts with [`session::call_json`] and goes on with
//! [`session::resume`]: each step is a response, or an action for the surrounding program to
//! perform on the driver.
//!
//! - [`text`], [`quoting`], [`json`], [`document`]: text, SQL literals, JSON values and documents.
//! - [`target`]: what a request asks to open, with which token.
//! - [`cells`], [`catalog`]: result cells and the catalog, and what they are in JSON.
//! - [`protocol`]: actions, events, responses.
//! - [`connecting`], [`querying`], [`listing`], [`session`]: the steps of each call.
//! - [`registry`]: the open connections.
//! - [`laws`], [`call_laws`], [`connecting_laws`], [`catalog_laws`]: what holds of every call, and
//!   what each one does and answers.
//! - [`text_laws`], [`content_laws`], [`target_laws`]: what holds of text, of values and their
//!   JSON, and of what a request asks for.

pub mod call_laws;
pub mod catalog;
pub mod catalog_laws;
pub mod cells;
pub mod connecting;
pub mod connecting_laws;
pub mod content_laws;
pub mod document;
pub mod json;
pub mod laws;
pub mod listing;
pub mod protocol;
pub mod querying;
pub mod quoting;
pub mod registry;
pub mod session;
pub mod target;
pub mod target_laws;
pub mod text;
pub mod text_laws;
