//! `drata_cli`: the logic of a command-line client for the Drata compliance
//! API, with its behaviour stated as contracts and proved.
//!
//! The library decides what each command sends and how each answer is read:
//! the request plans of the resource commands, query encoding, the write
//! guardrail, retries, cursor pagination, the three-tier name filter, table
//! layout, JSON rendering, `--example` skeletons from the OpenAPI document,
//! credential profiles and configuration precedence, confirmation rules and
//! the disposable live verification run. The `drata` binary performs the I/O.

pub mod text;
pub mod cli;
pub mod confirm;
pub mod config;
pub mod filter;
pub mod json;
pub mod json_text;
pub mod client;
pub mod expand;
pub mod raw;
pub mod output;
pub mod spec;
pub mod pointer;
pub mod resources;
pub mod verify;
