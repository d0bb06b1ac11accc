//! A calendar that marks public holidays and the user's own.
//!
//! - `gregorian`, `display_month`, `calendar`: the arithmetic of months, the
//!   grid of one month, and the calendar of several months side by side.
//! - `holidays`, `model`: the holidays of a year, and their model.
//! - `provider`, `fetch`: the remote sources of holidays, and what their
//!   answers hold.
//! - `codec`, `cache`: the format of a cache file, and the retrieval that
//!   asks the cache before the provider.
//! - `listing`: the list of holidays as lines, as JSON or as Markdown.
//! - `actions`, `cli`: the commands, and the command line as plain values.
//! - `text`, `error`: building blocks of text, and the error type.
//!
//! Nothing here reads a clock, a file or the network: a caller hands in
//! the date, the bytes and the answers.

use vstd::prelude::*;

pub mod actions;
pub mod cache;
pub mod calendar;
pub mod cli;
pub mod codec;
pub mod display_month;
pub mod error;
pub mod fetch;
pub mod gregorian;
pub mod holidays;
pub mod listing;
pub mod model;
pub mod provider;
pub mod text;
