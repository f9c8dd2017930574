use vstd::prelude::*;

pub mod about;
pub mod ancli;
pub mod args;
pub mod cache;
pub mod chunked;
pub mod cli;
pub mod codex;
pub mod commands;
pub mod config;
pub mod cursor;
pub mod env;
pub mod gateway;
pub mod geometry;
pub mod http;
pub mod install;
pub mod interaction;
pub mod json;
pub mod lead;
pub mod manual;
pub mod opencode;
pub mod paths;
pub mod payload;
pub mod popup;
pub mod proto;
mod random;
pub mod relay;
pub mod repeat;
pub mod selftest;
pub mod session;
pub mod sha1;
pub mod smoke;
pub mod state;
pub mod step;
pub mod text;
pub mod time;
pub mod tray;
pub mod watchdog;
pub mod window;

verus! {

} // verus!
