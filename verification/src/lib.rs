//! The core of a scraper of retail listings: a store of listings and of the
//! images they share, a sweep that keeps each level of listings within a
//! capacity, a scheduler that polls the sources of listings, and the retry
//! policy of the transport.
//!
//! What each operation does is stated over the model in [`model`] and proved;
//! [`laws`] states what follows for sequences of operations. Nothing here
//! reads a clock, a file or a socket: the time is an argument, and the
//! scheduler and the transport are state machines that a driver steps.
pub mod amazon;
pub mod config;
pub mod consistency;
pub mod db;
pub mod hash;
pub mod http_util;
pub mod laws;
pub mod levels;
pub mod model;
pub mod price;
pub mod random;
pub mod scraper;
pub mod seqs;
pub mod sources;
pub mod target;
pub mod text;
