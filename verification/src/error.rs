//! Error taxonomy: guest-facing error codes with location metadata,
//! and the runtime's internal error type with its conversion to the
//! guest-facing form.

use vstd::prelude::*;

use crate::text::spec_decimal;
use crate::text::u64_to_decimal;

verus! {

/// Guest-facing error codes.
#[derive(Debug, Clone, Copy, PartialEq, Eq, Structural)]
pub enum ErrorCode {
    /// Handler exceeded its wall-clock budget.
    Timeout,
    /// Handler exceeded its memory budget.
    MemoryLimit,
    /// A capability check failed.
    PermissionDenied,
    /// The guest raised a runtime condition.
    ExecutionError,
    /// The compile rejected the source.
    CompilationError,
    /// The handler structure was malformed before compile.
    InvalidHandler,
    /// An invariant was violated inside the runtime.
    InternalError,
    /// A per-invocation counter was exceeded.
    ResourceLimit,
    /// The guest engine failed internally.
    WasmError,
    /// A boundary payload failed to decode or encode.
    SerializationError,
    /// A boundary-validated constraint was violated.
    InvalidArgument,
    /// An extension call targeted an unknown extension.
    ExtensionNotFound,
    /// An extension call targeted an unknown method.
    MethodNotFound,
}

/// The screaming-snake-case name of an error code.
pub open spec fn spec_code_name(c: ErrorCode) -> Seq<char> {
    match c {
        ErrorCode::Timeout => "TIMEOUT"@,
        ErrorCode::MemoryLimit => "MEMORY_LIMIT"@,
        ErrorCode::PermissionDenied => "PERMISSION_DENIED"@,
        ErrorCode::ExecutionError => "EXECUTION_ERROR"@,
        ErrorCode::CompilationError => "COMPILATION_ERROR"@,
        ErrorCode::InvalidHandler => "INVALID_HANDLER"@,
        ErrorCode::InternalError => "INTERNAL_ERROR"@,
        ErrorCode::ResourceLimit => "RESOURCE_LIMIT"@,
        ErrorCode::WasmError => "WASM_ERROR"@,
        ErrorCode::SerializationError => "SERIALIZATION_ERROR"@,
        ErrorCode::InvalidArgument => "INVALID_ARGUMENT"@,
        ErrorCode::ExtensionNotFound => "EXTENSION_NOT_FOUND"@,
        ErrorCode::MethodNotFound => "METHOD_NOT_FOUND"@,
    }
}

impl ErrorCode {
    /// The code's name, as rendered at the boundary.
    pub fn code_name(&self) -> (r: String)
        ensures
            r@ == spec_code_name(*self),
    {
        match self {
            ErrorCode::Timeout => "TIMEOUT".to_owned(),
            ErrorCode::MemoryLimit => "MEMORY_LIMIT".to_owned(),
            ErrorCode::PermissionDenied => "PERMISSION_DENIED".to_owned(),
            ErrorCode::ExecutionError => "EXECUTION_ERROR".to_owned(),
            ErrorCode::CompilationError => "COMPILATION_ERROR".to_owned(),
            ErrorCode::InvalidHandler => "INVALID_HANDLER".to_owned(),
            ErrorCode::InternalError => "INTERNAL_ERROR".to_owned(),
            ErrorCode::ResourceLimit => "RESOURCE_LIMIT".to_owned(),
            ErrorCode::WasmError => "WASM_ERROR".to_owned(),
            ErrorCode::SerializationError => "SERIALIZATION_ERROR".to_owned(),
            ErrorCode::InvalidArgument => "INVALID_ARGUMENT".to_owned(),
            ErrorCode::ExtensionNotFound => "EXTENSION_NOT_FOUND".to_owned(),
            ErrorCode::MethodNotFound => "METHOD_NOT_FOUND".to_owned(),
        }
    }
}

/// A 1-indexed source location in handler code.
#[derive(Debug, Clone, Copy, PartialEq, Eq, Structural)]
pub struct SourceLocation {
    /// Line number (1-indexed).
    pub line: u32,
    /// Column number (1-indexed).
    pub column: u32,
}

impl SourceLocation {
    /// Creates a source location.
    pub fn new(line: u32, column: u32) -> (r: SourceLocation)
        ensures
            r == (SourceLocation { line, column }),
    {
        SourceLocation { line, column }
    }
}

/// A code snippet around an error location.
#[derive(Debug)]
pub struct CodeSnippet {
    /// The snippet text.
    pub code: String,
    /// The line to highlight, 1-indexed relative to the snippet.
    pub highlight_line: u32,
}

impl Clone for CodeSnippet {
    /// Copy with the same text and highlight line.
    fn clone(&self) -> (r: Self)
        ensures
            r.code@ == self.code@,
            r.highlight_line == self.highlight_line,
    {
        CodeSnippet { code: self.code.clone(), highlight_line: self.highlight_line }
    }
}

/// Model of a guest-facing error.
#[verifier::ext_equal]
pub struct ErrModel {
    /// Error code.
    pub code: ErrorCode,
    /// Message text.
    pub message: Seq<char>,
    /// Stack trace text, if attached.
    pub stack: Option<Seq<char>>,
    /// Source location, if attached.
    pub location: Option<SourceLocation>,
    /// Snippet text and highlight line, if attached.
    pub snippet: Option<(Seq<char>, u32)>,
}

/// A guest-facing error: a code, a message, and optional location
/// metadata.
#[derive(Debug)]
pub struct WasmError {
    /// Error code.
    pub code: ErrorCode,
    /// Human-readable message.
    pub message: String,
    /// Guest stack trace, if known.
    pub stack: Option<String>,
    /// Source location, if known.
    pub location: Option<SourceLocation>,
    /// Handler code snippet around the error, if known.
    pub snippet: Option<CodeSnippet>,
}

impl WasmError {
    /// Model of this error.
    pub open spec fn model(self) -> ErrModel {
        ErrModel {
            code: self.code,
            message: self.message@,
            stack: match self.stack {
                Some(s) => Some(s@),
                None => None,
            },
            location: self.location,
            snippet: match self.snippet {
                Some(sn) => Some((sn.code@, sn.highlight_line)),
                None => None,
            },
        }
    }

    /// Creates an error with a code and message and no metadata.
    pub fn new(code: ErrorCode, message: String) -> (r: WasmError)
        ensures
            r.model() == (ErrModel {
                code,
                message: message@,
                stack: None,
                location: None,
                snippet: None,
            }),
    {
        WasmError { code, message, stack: None, location: None, snippet: None }
    }

    /// Creates a timeout error for a wall-clock budget in milliseconds.
    pub fn timeout(timeout_ms: u32) -> (r: WasmError)
        ensures
            r.model() == (ErrModel {
                code: ErrorCode::Timeout,
                message: spec_timeout_message(timeout_ms as nat),
                stack: None,
                location: None,
                snippet: None,
            }),
    {
        let mut m = "Handler exceeded ".to_owned();
        m.append(u64_to_decimal(timeout_ms as u64).as_str());
        m.append("ms time limit");
        WasmError::new(ErrorCode::Timeout, m)
    }

    /// Creates a memory limit error.
    pub fn memory_limit(limit_bytes: u64, used_bytes: u64) -> (r: WasmError)
        ensures
            r.model() == (ErrModel {
                code: ErrorCode::MemoryLimit,
                message: spec_memory_limit_message(limit_bytes as nat, used_bytes as nat),
                stack: None,
                location: None,
                snippet: None,
            }),
    {
        let mut m = "Handler exceeded memory limit: ".to_owned();
        m.append(u64_to_decimal(used_bytes).as_str());
        m.append(" bytes used, ");
        m.append(u64_to_decimal(limit_bytes).as_str());
        m.append(" bytes allowed");
        WasmError::new(ErrorCode::MemoryLimit, m)
    }

    /// Creates a permission denied error naming the capability and the
    /// operation attempted.
    pub fn permission_denied(capability: &str, operation: &str) -> (r: WasmError)
        ensures
            r.model() == (ErrModel {
                code: ErrorCode::PermissionDenied,
                message: spec_permission_denied_message(capability@, operation@),
                stack: None,
                location: None,
                snippet: None,
            }),
    {
        let mut m = "Permission denied: ".to_owned();
        m.append(operation);
        m.append(" requires capability '");
        m.append(capability);
        m.append("'");
        WasmError::new(ErrorCode::PermissionDenied, m)
    }

    /// Creates an execution error.
    pub fn execution_error(message: String) -> (r: WasmError)
        ensures
            r.model() == (ErrModel {
                code: ErrorCode::ExecutionError,
                message: message@,
                stack: None,
                location: None,
                snippet: None,
            }),
    {
        WasmError::new(ErrorCode::ExecutionError, message)
    }

    /// Creates a compilation error.
    pub fn compilation_error(message: String) -> (r: WasmError)
        ensures
            r.model() == (ErrModel {
                code: ErrorCode::CompilationError,
                message: message@,
                stack: None,
                location: None,
                snippet: None,
            }),
    {
        WasmError::new(ErrorCode::CompilationError, message)
    }

    /// Creates an invalid handler error.
    pub fn invalid_handler(message: String) -> (r: WasmError)
        ensures
            r.model() == (ErrModel {
                code: ErrorCode::InvalidHandler,
                message: message@,
                stack: None,
                location: None,
                snippet: None,
            }),
    {
        WasmError::new(ErrorCode::InvalidHandler, message)
    }

    /// Creates an internal error.
    pub fn internal_error(message: String) -> (r: WasmError)
        ensures
            r.model() == (ErrModel {
                code: ErrorCode::InternalError,
                message: message@,
                stack: None,
                location: None,
                snippet: None,
            }),
    {
        WasmError::new(ErrorCode::InternalError, message)
    }

    /// Creates a resource limit error naming the exhausted resource.
    pub fn resource_limit(resource: &str, limit: u32, used: u32) -> (r: WasmError)
        ensures
            r.model() == (ErrModel {
                code: ErrorCode::ResourceLimit,
                message: spec_resource_limit_message(resource@, limit as nat, used as nat),
                stack: None,
                location: None,
                snippet: None,
            }),
    {
        let mut m = "Resource limit exceeded: ".to_owned();
        m.append(resource);
        m.append(" (used: ");
        m.append(u64_to_decimal(used as u64).as_str());
        m.append(", limit: ");
        m.append(u64_to_decimal(limit as u64).as_str());
        m.append(")");
        WasmError::new(ErrorCode::ResourceLimit, m)
    }

    /// Creates an error for an unknown extension.
    pub fn extension_not_found(name: &str) -> (r: WasmError)
        ensures
            r.model() == (ErrModel {
                code: ErrorCode::ExtensionNotFound,
                message: spec_extension_not_found_message(name@),
                stack: None,
                location: None,
                snippet: None,
            }),
    {
        let mut m = "Extension '".to_owned();
        m.append(name);
        m.append("' not found");
        WasmError::new(ErrorCode::ExtensionNotFound, m)
    }

    /// Creates an error for an unknown extension method.
    pub fn method_not_found(extension: &str, method: &str) -> (r: WasmError)
        ensures
            r.model() == (ErrModel {
                code: ErrorCode::MethodNotFound,
                message: spec_method_not_found_message(extension@, method@),
                stack: None,
                location: None,
                snippet: None,
            }),
    {
        let mut m = "Method '".to_owned();
        m.append(method);
        m.append("' not found on extension '");
        m.append(extension);
        m.append("'");
        WasmError::new(ErrorCode::MethodNotFound, m)
    }

    /// Attaches a stack trace.
    pub fn with_stack(self, stack: String) -> (r: WasmError)
        ensures
            r.model() == (ErrModel { stack: Some(stack@), ..self.model() }),
    {
        WasmError { stack: Some(stack), ..self }
    }

    /// Attaches a source location.
    pub fn with_location(self, line: u32, column: u32) -> (r: WasmError)
        ensures
            r.model() == (ErrModel {
                location: Some(SourceLocation { line, column }),
                ..self.model()
            }),
    {
        WasmError { location: Some(SourceLocation::new(line, column)), ..self }
    }

    /// Attaches a code snippet.
    pub fn with_snippet(self, code: String, highlight_line: u32) -> (r: WasmError)
        ensures
            r.model() == (ErrModel { snippet: Some((code@, highlight_line)), ..self.model() }),
    {
        WasmError { snippet: Some(CodeSnippet { code, highlight_line }), ..self }
    }
}

impl Clone for WasmError {
    /// Copy with the same model.
    fn clone(&self) -> (r: Self)
        ensures
            r.model() == self.model(),
    {
        WasmError {
            code: self.code,
            message: self.message.clone(),
            stack: match &self.stack {
                Some(s) => Some(s.clone()),
                None => None,
            },
            location: self.location,
            snippet: match &self.snippet {
                Some(sn) => Some(sn.clone()),
                None => None,
            },
        }
    }
}

/// Message of a timeout error.
pub open spec fn spec_timeout_message(ms: nat) -> Seq<char> {
    "Handler exceeded "@ + spec_decimal(ms) + "ms time limit"@
}

/// Message of a memory limit error.
pub open spec fn spec_memory_limit_message(limit: nat, used: nat) -> Seq<char> {
    "Handler exceeded memory limit: "@ + spec_decimal(used) + " bytes used, "@ + spec_decimal(
        limit,
    ) + " bytes allowed"@
}

/// Message of a permission denied error.
pub open spec fn spec_permission_denied_message(capability: Seq<char>, operation: Seq<char>) -> Seq<
    char,
> {
    "Permission denied: "@ + operation + " requires capability '"@ + capability + "'"@
}

/// Message of a resource limit error.
pub open spec fn spec_resource_limit_message(resource: Seq<char>, limit: nat, used: nat) -> Seq<
    char,
> {
    "Resource limit exceeded: "@ + resource + " (used: "@ + spec_decimal(used) + ", limit: "@
        + spec_decimal(limit) + ")"@
}

/// Message of an unknown-extension error.
pub open spec fn spec_extension_not_found_message(name: Seq<char>) -> Seq<char> {
    "Extension '"@ + name + "' not found"@
}

/// Message of an unknown-method error.
pub open spec fn spec_method_not_found_message(extension: Seq<char>, method: Seq<char>) -> Seq<
    char,
> {
    "Method '"@ + method + "' not found on extension '"@ + extension + "'"@
}

/// Configuration errors.
#[derive(Debug)]
pub enum ConfigError {
    /// A configuration value is invalid.
    InvalidValue {
        /// The field name.
        field: String,
        /// Why the value is invalid.
        reason: String,
    },
    /// A required configuration field is missing.
    MissingField {
        /// The field name.
        field: String,
    },
}

impl ConfigError {
    /// A human-readable description of the error.
    pub fn describe(&self) -> (r: String)
        ensures
            r@ == spec_config_error_message(*self),
    {
        match self {
            ConfigError::InvalidValue { field, reason } => {
                let mut m = "Invalid configuration value for ".to_owned();
                m.append(field.as_str());
                m.append(": ");
                m.append(reason.as_str());
                m
            },
            ConfigError::MissingField { field } => {
                let mut m = "Missing required configuration field: ".to_owned();
                m.append(field.as_str());
                m
            },
        }
    }
}

/// Message of a configuration error.
pub open spec fn spec_config_error_message(e: ConfigError) -> Seq<char> {
    match e {
        ConfigError::InvalidValue { field, reason } => "Invalid configuration value for "@
            + field@ + ": "@ + reason@,
        ConfigError::MissingField { field } => "Missing required configuration field: "@
            + field@,
    }
}

/// The runtime's internal error type.
#[derive(Debug)]
pub enum RuntimeError {
    /// A guest-facing error.
    Wasm(WasmError),
    /// A configuration error.
    Config(ConfigError),
    /// A boundary payload failed to decode or encode.
    Serialization(String),
    /// A pool-level failure.
    Pool(String),
    /// An instance-level failure.
    Instance(String),
    /// A compile-level failure.
    Compilation(String),
    /// An operation was attempted in the wrong state.
    InvalidState(String),
    /// A suspension could not be resolved.
    Suspension(String),
    /// The runtime was already shut down.
    Shutdown(String),
    /// Any other failure.
    General(String),
}

/// The guest-facing code that an internal error maps to.
pub open spec fn spec_runtime_error_code(e: RuntimeError) -> ErrorCode {
    match e {
        RuntimeError::Wasm(w) => w.code,
        RuntimeError::Config(_) => ErrorCode::InvalidArgument,
        RuntimeError::Serialization(_) => ErrorCode::SerializationError,
        RuntimeError::Pool(_) => ErrorCode::InternalError,
        RuntimeError::Instance(_) => ErrorCode::WasmError,
        RuntimeError::Compilation(_) => ErrorCode::CompilationError,
        RuntimeError::InvalidState(_) => ErrorCode::InternalError,
        RuntimeError::Suspension(_) => ErrorCode::InternalError,
        RuntimeError::Shutdown(_) => ErrorCode::InternalError,
        RuntimeError::General(_) => ErrorCode::InternalError,
    }
}

impl RuntimeError {
    /// Converts to the guest-facing error form; a wrapped guest error
    /// passes through unchanged, every other variant keeps its message
    /// under the mapped code.
    pub fn to_wasm_error(&self) -> (r: WasmError)
        ensures
            r.code == spec_runtime_error_code(*self),
            match *self {
                RuntimeError::Wasm(w) => r.model() == w.model(),
                RuntimeError::Config(c) => r.message@ == spec_config_error_message(c),
                RuntimeError::Serialization(m) => r.message@ == m@,
                RuntimeError::Pool(m) => r.message@ == m@,
                RuntimeError::Instance(m) => r.message@ == m@,
                RuntimeError::Compilation(m) => r.message@ == m@,
                RuntimeError::InvalidState(m) => r.message@ == m@,
                RuntimeError::Suspension(m) => r.message@ == m@,
                RuntimeError::Shutdown(m) => r.message@ == m@,
                RuntimeError::General(m) => r.message@ == m@,
            },
    {
        match self {
            RuntimeError::Wasm(w) => w.clone(),
            RuntimeError::Config(c) => WasmError::new(ErrorCode::InvalidArgument, c.describe()),
            RuntimeError::Serialization(m) => WasmError::new(
                ErrorCode::SerializationError,
                m.clone(),
            ),
            RuntimeError::Pool(m) => WasmError::new(ErrorCode::InternalError, m.clone()),
            RuntimeError::Instance(m) => WasmError::new(ErrorCode::WasmError, m.clone()),
            RuntimeError::Compilation(m) => WasmError::new(
                ErrorCode::CompilationError,
                m.clone(),
            ),
            RuntimeError::InvalidState(m) => WasmError::new(ErrorCode::InternalError, m.clone()),
            RuntimeError::Suspension(m) => WasmError::new(ErrorCode::InternalError, m.clone()),
            RuntimeError::Shutdown(m) => WasmError::new(ErrorCode::InternalError, m.clone()),
            RuntimeError::General(m) => WasmError::new(ErrorCode::InternalError, m.clone()),
        }
    }
}

/// Result alias for runtime operations.
pub type RuntimeResult<T> = Result<T, RuntimeError>;

/// Success code handed to the guest.
pub const HOST_SUCCESS: i32 = 0;

/// Permission denied code handed to the guest.
pub const HOST_PERMISSION_DENIED: i32 = -1;

/// Resource limit code handed to the guest.
pub const HOST_RESOURCE_LIMIT: i32 = -2;

/// Invalid argument code handed to the guest.
pub const HOST_INVALID_ARGUMENT: i32 = -3;

/// Not found code handed to the guest.
pub const HOST_NOT_FOUND: i32 = -4;

/// Internal error code handed to the guest.
pub const HOST_INTERNAL_ERROR: i32 = -5;

} // verus!
