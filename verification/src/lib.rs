//! Template resolution and chain execution for recipe-based HTTP requests.
//!
//! A recipe describes an HTTP request whose fields are templates. A template
//! may refer to chains: values that come from another recipe's response, from
//! a command, a file, a prompt or the environment. This crate parses
//! templates, decides when a chained request has to be sent again, and renders
//! a template to bytes while keeping the depth of nested chains bounded.
//!
//! Nothing here performs I/O. [`template::Template::render`] takes the
//! answers that the outside world has given so far and either ends, with the
//! rendered bytes or a failure, or names the one action whose answer it needs
//! next. The caller performs that action, adds the answer, and renders again.
//!
//! The modules, from the leaves up:
//!
//! - [`text`], [`trim`], [`json`], [`select`], [`section`]: bytes and text;
//! - [`template`]: the template grammar and its parser;
//! - [`collection`], [`http`], [`history`]: the data a render works on;
//! - [`trigger`]: reuse or send again;
//! - [`exchange`]: actions, answers, and how a render ends;
//! - [`render`]: the renderer and the chain resolver;
//! - [`laws`]: what holds of every render;
//! - [`prompter`], [`factory`]: a headless prompter and placeholder values;
//! - [`outside`]: what is taken on trust from other crates.

pub mod text;
pub mod template;
pub mod collection;
pub mod outside;
pub mod http;
pub mod history;
pub mod trigger;
pub mod trim;
pub mod json;
pub mod select;
pub mod exchange;
pub mod section;
pub mod render;
pub mod laws;
pub mod factory;
pub mod prompter;
