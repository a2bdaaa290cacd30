//! Extraction of SQL statements from iBATIS SQL Map and MyBatis Mapper
//! documents: event-driven capture, fragment resolution and normalization.
pub mod text;
pub mod resolve;
pub mod dialect;
pub mod event;
pub mod parse;
pub mod normalize;
pub mod extract;
pub mod laws;
