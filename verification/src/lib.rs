//! A store of visited directories, kept in one SQLite file per state
//! directory, that ranks them by how often and how recently they were used.
//!
//! The rules are verified: which scripts bring a schema up to date and in
//! which order ([`migrations`], [`script_names`]), what a visit does to a
//! row ([`visits`]), and which paths a query returns in which order
//! ([`ranking`]). [`storage`] drives the database by these rules through the
//! calls declared in [`database`].

pub mod clock;
pub mod config;
pub mod database;
pub mod error;
pub mod migrations;
pub mod ranking;
pub mod script_names;
pub mod statements;
pub mod storage;
pub mod text;
pub mod visits;
