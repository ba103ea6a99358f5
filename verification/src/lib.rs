//! Core logic of the Fiberplane command line tool: parsing command output
//! into logs and cells, extracting and rendering recorded shell sessions,
//! applying notebook changes, crawling linked notebooks, building slugs and
//! URLs, the update and login flows, and the small parsers and formatters
//! the command line front end relies on.
use vstd::prelude::*;

pub mod ansi;
pub mod arguments;
pub mod cell_writer;
pub mod config;
pub mod crawl;
pub mod create;
pub mod fields;
pub mod http;
pub mod interactive;
pub mod labels;
pub mod logs;
pub mod manifest;
pub mod message;
pub mod models;
pub mod notebook;
pub mod output;
pub mod render;
pub mod shell;
pub mod rows;
pub mod runtime;
pub mod snippets;
pub mod stress_test;
pub mod templates;
pub mod terminal;
pub mod text;
pub mod timestamps;
pub mod update;
pub mod urls;
pub mod utils;
pub mod version;

verus! {

} // verus!
