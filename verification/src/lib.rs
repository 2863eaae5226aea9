//! The container segment of a status line: it finds out whether the process
//! runs inside a container-like sandbox, under which name to show it, and
//! renders that name through a small template language into styled text.
//!
//! - [`context`]: the marker files, and a snapshot of what was found at them
//! - [`config`]: the user's settings
//! - [`detect`]: the probes and their order
//! - [`template`]: the template language and its parser
//! - [`writing`]: items written back as a template, and the parser's laws
//! - [`render`]: from items and a resolver of names to segments
//! - [`segment`]: the styled pieces of text that come out
//! - [`container`]: all of it together, in [`container::module`]
//! - [`text`], [`error`]: what the others share
//!
//! The library does no input or output. Its caller looks at the marker
//! files, records what it found, and shows the segments.

pub mod config;
pub mod container;
pub mod context;
pub mod detect;
pub mod error;
pub mod render;
pub mod segment;
pub mod template;
pub mod text;
pub mod writing;
