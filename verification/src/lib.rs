//! Core of a project scaffolding engine: it resolves typed variable slots
//! against supplied values, merges conditional configuration fragments,
//! filters template paths through glob patterns, and plans the rendering
//! of a template tree into a destination tree.
use vstd::prelude::*;

pub mod conditional;
pub mod hooks;
pub mod locate;
pub mod pipeline;
pub mod project;
pub mod version;
pub mod config;
pub mod filter;
pub mod render;
pub mod resolver;
pub mod slots;
pub mod strutil;
pub mod values;
pub mod walker;

verus! {

/// Everything that can end a generation run, each stage's failures apart.
#[derive(Clone, Debug, PartialEq)]
pub enum GenError {
    /// A pre-supplied value is neither a string nor a boolean.
    UnsupportedValueType { var_name: String },
    /// Silent mode found a slot with no pre-supplied value.
    MissingPlaceholderVariable { var_name: String },
    /// A string value does not match the slot's regex constraint.
    RegexMismatch { var_name: String },
    /// A string value is not one of the slot's declared choices.
    InvalidChoice { var_name: String },
    /// A value's kind does not fit the slot's declared kind.
    WrongTypeForSlot { var_name: String },
    /// A slot declares a regex constraint that does not compile.
    InvalidRegex { var_name: String },
    /// The engine does not satisfy the template's version requirement.
    VersionMismatch { required: String, actual: String },
    /// The template's version requirement or the engine version is malformed.
    InvalidVersionReq,
    /// The destination directory already exists.
    DestinationExists { path: String },
    /// A single destination file already exists.
    FileExists { path: String },
    /// A symbolic link was found in the template tree.
    SymlinkUnsupported { path: String },
    /// Rendering a path or a file's contents failed.
    RenderError { path: String },
    /// A project name was neither given nor promptable.
    ProjectNameMissing,
    /// No configuration file was found between folder and template root.
    FileNotFoundInTemplate,
    /// Walking up from the template folder left the template root.
    ReachedRootFolder,
    /// Hooks are declared but running external commands is not allowed.
    HooksNotAllowed,
    /// The interactive prompt collaborator failed or returned an invalid
    /// value.
    PromptAborted,
}

} // verus!
