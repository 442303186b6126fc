use vstd::prelude::*;

pub mod text;
pub mod names;
pub mod category;
pub mod destructive;
pub mod style;
pub mod media;
pub mod urls;
pub mod ip;
pub mod safety;
pub mod server_url;
pub mod digest;
pub mod http;
pub mod loader;
pub mod parse;
pub mod error;
pub mod refs;
pub mod cli_error;
pub mod secrets;
pub mod tunnel_screen;
pub mod fetchhive;
pub mod config;
pub mod commands;
pub mod cli_args;
pub mod json;
pub mod lower;
pub mod servers;
pub mod security;
pub mod schema;
pub mod warnings;
pub mod body;
pub mod draft;
pub mod responses;
pub mod params;
pub mod operation;
pub mod collect;
pub mod compile;
pub mod bundle;
pub mod resolve;
pub mod defs;
pub mod upgrade;
pub mod inspect;
pub mod doctor;

verus! {

} // verus!
