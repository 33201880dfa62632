//! Schema bookkeeping for the streams of an ingestion service.
//!
//! New records are held against the schema of their stream ([`check`]), which is brought up to them
//! where they have more columns or wider types ([`evolution`], [`diff`]). A stream may be narrowed
//! to some of its columns ([`narrowing`]). What a stream's schema holds can be asked for
//! ([`existence`]).
//!
//! The services that store schemas are not called from here: the steps of [`check`] and [`diff`]
//! say which call is due and take its outcome. What comes of them as a whole is stated in [`runs`]
//! and [`effects`], and what holds of every operation in [`laws`].

pub mod check;
pub mod diff;
pub mod effects;
pub mod errors;
pub mod evolution;
pub mod existence;
pub mod field;
pub mod json;
pub mod laws;
pub mod metadata;
pub mod name_set;
pub mod narrowing;
pub mod runs;
pub mod schema;
pub mod settings;
pub mod text;
