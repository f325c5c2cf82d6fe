//! The single error channel of plugin execution.

use vstd::prelude::*;
use vstd::string::*;

verus! {

/// What can go wrong between a declaration and a result.
#[derive(Debug, Clone, PartialEq, Eq)]
pub enum PluginError {
    /// A malformed declaration file or malformed wire JSON, with its message.
    DeserializationError(String),
    /// A declared parameter that no argument and no default binds, by name.
    ParameterBindingError(String),
    /// A declaration that names no usable backend.
    BackendConfigError,
    /// A fault or an error reported from inside the sandbox, with its reason.
    SandboxTrapError(String),
    /// A process that could not be spawned or exited unsuccessfully.
    ProcessError(String),
    /// Bytes that should hold UTF-8 text and do not.
    Utf8DecodingError,
}

/// The text that describes an error to the user.
pub open spec fn message_of(e: PluginError) -> Seq<char> {
    match e {
        PluginError::DeserializationError(m) => "deserialization failed: "@ + m@,
        PluginError::ParameterBindingError(n) => "no value for parameter "@ + n@,
        PluginError::BackendConfigError => "Neither wasm nor script configurations were provided"@,
        PluginError::SandboxTrapError(m) => "sandbox call failed: "@ + m@,
        PluginError::ProcessError(m) => "process failed: "@ + m@,
        PluginError::Utf8DecodingError => "output is not valid UTF-8"@,
    }
}

impl PluginError {
    /// Describes the error, keeping any message it carries.
    pub fn message(&self) -> (r: String)
        ensures
            r@ == message_of(*self),
    {
        match self {
            PluginError::DeserializationError(m) => String::from_str("deserialization failed: ").concat(m.as_str()),
            PluginError::ParameterBindingError(n) => String::from_str("no value for parameter ").concat(n.as_str()),
            PluginError::BackendConfigError => String::from_str("Neither wasm nor script configurations were provided"),
            PluginError::SandboxTrapError(m) => String::from_str("sandbox call failed: ").concat(m.as_str()),
            PluginError::ProcessError(m) => String::from_str("process failed: ").concat(m.as_str()),
            PluginError::Utf8DecodingError => String::from_str("output is not valid UTF-8"),
        }
    }
}

} // verus!
