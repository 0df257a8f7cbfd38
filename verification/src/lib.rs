//! A verified project-scaffolding library.
//!
//! The library turns a parameterized template tree into a plan for a concrete
//! project directory: it parses the template's descriptor, resolves named
//! parameter values, compiles exclusion patterns, renders file contents and
//! destination paths through a templating engine, and decides how conflicts
//! with an existing target are handled.  The plan is a pure value; carrying it
//! out (filesystem writes, process spawning, interactive prompts) is left to
//! the caller.

pub mod descriptor;
pub mod engine;
pub mod error;
pub mod helpers;
pub mod opts;
pub mod pattern;
pub mod render;
pub mod resolve;
pub mod text;
pub mod tomlval;
pub mod value;
