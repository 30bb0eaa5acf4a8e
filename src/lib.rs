//! A filter around a structural diff tool: it normalizes the flags handed to
//! the tool and rewrites the tool's colored, line-numbered output into a
//! `+`/`-` diff presentation, keeping or stripping the colors.
pub mod ansi;
pub mod args;
pub mod color;
pub mod line;
pub mod text;
