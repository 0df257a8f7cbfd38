//! The error taxonomy of the library.
//!
//! Every error is terminal for the current run; nothing is retried.

use vstd::prelude::*;

verus! {

/// Which kind of text the templating engine was rendering when it failed.
#[derive(Clone, Copy, Debug, PartialEq, Eq, Structural)]
pub enum RenderStage {
    /// A file's contents.
    Content,
    /// A destination path component.
    Path,
    /// A lifecycle hook command line.
    Hook,
    /// The descriptor's closing notes.
    Notes,
}

/// A terminal failure of a scaffolding run.
///
/// `IoFailure` and `HookFailure` are never produced by the planning engine
/// itself: they are for the runner that carries a plan out.
#[derive(Clone, Debug, PartialEq, Eq)]
pub enum ScaffoldError {
    /// The target directory exists and the policy forbids reusing it; holds
    /// the directory's path.
    DirectoryExists(String),
    /// The descriptor is not well-formed, with the parser's message or the
    /// place that has the wrong shape.
    Malformed(String),
    /// A parameter specification lacks a field it must carry; holds the
    /// parameter's name.
    MissingRequiredField(String),
    /// A command-line `name=value` override without `=`; holds the argument.
    InvalidCliParam(String),
    /// A selection parameter declared with no values to choose from; holds
    /// the parameter's name.
    MissingValues(String),
    /// A file to be templated does not hold valid UTF-8 text; holds its
    /// template-relative path.
    InvalidEncoding(String),
    /// The templating engine refused a template.
    RenderError { stage: RenderStage, location: String, message: String },
    /// An exclusion or templating-exception pattern could not be compiled;
    /// holds the compiler's message.
    PatternError(String),
    /// A hook command line is empty after shell-word splitting; holds the
    /// command.
    EmptyCommand(String),
    /// A filesystem operation failed while a plan was carried out; holds a
    /// message naming the operation.
    IoFailure(String),
    /// A hook command could not be spawned or exited with failure; holds
    /// the command.
    HookFailure(String),
    /// A project name was needed but none was resolved.
    MissingProjectName,
}

} // verus!
