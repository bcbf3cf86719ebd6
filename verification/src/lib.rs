//! The operations of a bridge to Launchpad: bugs, merge proposals, reviews and Git checkouts.
//!
//! An operation is a function of a request and of the answers that it got so far. It comes to a
//! result, or stops with an action: something to fetch, send or run. Whoever runs it carries the
//! action out, appends the answer and asks again, so that everything that is decided is decided
//! here.
pub mod answering;
pub mod branches;
pub mod comments;
pub mod compare;
pub mod conversation;
pub mod creating;
pub mod details;
pub mod diff;
pub mod discussion;
pub mod encoding;
pub mod endpoints;
pub mod error;
pub mod fields;
pub mod files;
pub mod format;
pub mod inspecting;
pub mod items;
pub mod json;
pub mod launchpad;
pub mod laws;
pub mod lines;
pub mod local_git;
pub mod lookup;
pub mod number;
pub mod order;
pub mod pages;
pub mod people;
pub mod preview;
pub mod proposals;
pub mod quoting;
pub mod render;
pub mod report;
pub mod repository;
pub mod request;
pub mod resolving;
pub mod response;
pub mod reviewing;
pub mod size;
pub mod split;
pub mod steps;
pub mod summary;
pub mod target;
pub mod text;
pub mod threads;
pub mod viewing;
pub mod web;
