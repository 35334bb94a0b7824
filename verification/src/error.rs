//! Error values for plugin operations.
//!
//! Errors are values, never panics: every fallible operation of this crate
//! returns one of these discriminants, and the core never recovers from them
//! locally — each error surfaces verbatim to the caller that triggered it.

use vstd::prelude::*;

verus! {

/// Errors that can occur during plugin operations.
#[derive(Debug, PartialEq)]
pub enum PluginError {
    /// Failed to load plugin from its source.
    LoadError(String),
    /// Failed to call a specific function in the plugin.
    CallError {
        /// The name of the function that failed to call.
        function: String,
        /// The error message describing why the call failed.
        message: String,
    },
    /// Function was not found in the loaded plugin.
    FunctionNotFound(String),
    /// Invalid argument type provided to a function call.
    InvalidArgumentType,
    /// General runtime error during plugin execution.
    RuntimeError(String),
    /// Host function was not found in the context.
    HostFunctionNotFound(String),
    /// Plugin is in an invalid state for the requested operation.
    InvalidPluginState,
    /// A plugin source file was not found.
    FileNotFound,
}

/// Result type for plugin operations that may fail.
pub type PluginResult<T> = Result<T, PluginError>;

impl PluginError {
    /// Human-readable rendering of the error, one line per variant.
    pub fn message(&self) -> (r: String)
        ensures
            r@ == self.message_model(),
    {
        match self {
            PluginError::LoadError(m) => {
                let mut s = String::from_str("Failed to load plugin: ");
                s.append(m.as_str());
                s
            },
            PluginError::CallError { function, message } => {
                let mut s = String::from_str("Failed to call function '");
                s.append(function.as_str());
                s.append("': ");
                s.append(message.as_str());
                s
            },
            PluginError::FunctionNotFound(f) => {
                let mut s = String::from_str("Function '");
                s.append(f.as_str());
                s.append("' not found in plugin");
                s
            },
            PluginError::InvalidArgumentType => {
                String::from_str("Invalid argument type for function call")
            },
            PluginError::RuntimeError(m) => {
                let mut s = String::from_str("Runtime error: ");
                s.append(m.as_str());
                s
            },
            PluginError::HostFunctionNotFound(f) => {
                let mut s = String::from_str("Host function '");
                s.append(f.as_str());
                s.append("' not found");
                s
            },
            PluginError::InvalidPluginState => {
                String::from_str("Invalid plugin state")
            },
            PluginError::FileNotFound => {
                String::from_str("Plugin source file not found")
            },
        }
    }

    /// What [`PluginError::message`] returns, variant by variant.
    pub open spec fn message_model(&self) -> Seq<char> {
        match self {
            PluginError::LoadError(m) => "Failed to load plugin: "@ + m@,
            PluginError::CallError { function, message } => "Failed to call function '"@
                + function@ + "': "@ + message@,
            PluginError::FunctionNotFound(f) => "Function '"@ + f@ + "' not found in plugin"@,
            PluginError::InvalidArgumentType => "Invalid argument type for function call"@,
            PluginError::RuntimeError(m) => "Runtime error: "@ + m@,
            PluginError::HostFunctionNotFound(f) => "Host function '"@ + f@ + "' not found"@,
            PluginError::InvalidPluginState => "Invalid plugin state"@,
            PluginError::FileNotFound => "Plugin source file not found"@,
        }
    }
}

} // verus!
