//! The library's error type: a machine-readable code, a human message,
//! a details string, and remediation hints.

use vstd::prelude::*;

use crate::text::{
    i32_chars, spec_i32_str, string_of,
};

verus! {

#[derive(Debug, Clone, Copy, PartialEq, Eq, Structural)]
pub enum ErrorCode {
    RemoteCommandFailed,
    ValidationInvalidArgument,
    ValidationMissingArgument,
    ConfigInvalidValue,
    Config,
    ServerNotFound,
    ProjectNotFound,
    SshServerInvalid,
    ModuleNotFound,
    InternalJson,
    InternalUnexpected,
    Other,
}

impl ErrorCode {
    pub fn as_str(&self) -> (r: &'static str)
        ensures
            *self == ErrorCode::RemoteCommandFailed ==> r@ == "remote.command_failed"@,
            *self == ErrorCode::ValidationInvalidArgument ==> r@
                == "validation.invalid_argument"@,
            *self == ErrorCode::ValidationMissingArgument ==> r@
                == "validation.missing_argument"@,
            *self == ErrorCode::ConfigInvalidValue ==> r@ == "config.invalid_value"@,
            *self == ErrorCode::Config ==> r@ == "config.error"@,
            *self == ErrorCode::ServerNotFound ==> r@ == "server.not_found"@,
            *self == ErrorCode::ProjectNotFound ==> r@ == "project.not_found"@,
            *self == ErrorCode::SshServerInvalid ==> r@ == "ssh.server_invalid"@,
            *self == ErrorCode::ModuleNotFound ==> r@ == "module.not_found"@,
            *self == ErrorCode::InternalJson ==> r@ == "internal.json"@,
            *self == ErrorCode::InternalUnexpected ==> r@ == "internal.unexpected"@,
            *self == ErrorCode::Other ==> r@ == "other"@,
    {
        match self {
            ErrorCode::RemoteCommandFailed => "remote.command_failed",
            ErrorCode::ValidationInvalidArgument => "validation.invalid_argument",
            ErrorCode::ValidationMissingArgument => "validation.missing_argument",
            ErrorCode::ConfigInvalidValue => "config.invalid_value",
            ErrorCode::Config => "config.error",
            ErrorCode::ServerNotFound => "server.not_found",
            ErrorCode::ProjectNotFound => "project.not_found",
            ErrorCode::SshServerInvalid => "ssh.server_invalid",
            ErrorCode::ModuleNotFound => "module.not_found",
            ErrorCode::InternalJson => "internal.json",
            ErrorCode::InternalUnexpected => "internal.unexpected",
            ErrorCode::Other => "other",
        }
    }
}

/// Where a remote command was aimed when it failed.
#[derive(Debug, Clone)]
pub struct TargetDetails {
    pub project_id: Option<String>,
    pub server_id: Option<String>,
    pub host: Option<String>,
}

/// What is known about a remote command that failed.
#[derive(Debug, Clone)]
pub struct RemoteCommandFailedDetails {
    pub command: String,
    pub exit_code: i32,
    pub stdout: String,
    pub stderr: String,
    pub target: TargetDetails,
}

#[derive(Debug, Clone)]
pub struct Error {
    pub code: ErrorCode,
    pub message: String,
    pub details: String,
    pub hints: Vec<String>,
}

/// The details text recorded for a failed remote command.
pub open spec fn spec_remote_details(d: RemoteCommandFailedDetails) -> Seq<char> {
    "command: "@ + d.command@ + "\nexit code: "@ + spec_i32_str(d.exit_code as int)
        + "\nstdout: "@ + d.stdout@ + "\nstderr: "@ + d.stderr@
}

impl Error {
    /// A failed remote command, with its command line and captured output
    /// recorded in the details.
    pub fn remote_command_failed(d: RemoteCommandFailedDetails) -> (r: Error)
        ensures
            r.code == ErrorCode::RemoteCommandFailed,
            r.message@ == "Remote command failed"@,
            r.details@ == spec_remote_details(d),
            r.hints@.len() == 0,
    {
        let mut details = String::new();
        details.append("command: ");
        details.append(d.command.as_str());
        details.append("\nexit code: ");
        let code_chars = i32_chars(d.exit_code);
        let code_str = string_of(&code_chars);
        details.append(code_str.as_str());
        details.append("\nstdout: ");
        details.append(d.stdout.as_str());
        details.append("\nstderr: ");
        details.append(d.stderr.as_str());
        Error {
            code: ErrorCode::RemoteCommandFailed,
            message: String::from_str("Remote command failed"),
            details,
            hints: Vec::new(),
        }
    }

    /// An argument that was present but not acceptable.
    pub fn validation_invalid_argument(
        field: &str,
        message: String,
        value: Option<String>,
        hints: Option<Vec<String>>,
    ) -> (r: Error)
        ensures
            r.code == ErrorCode::ValidationInvalidArgument,
            r.message@ == message@,
            r.details@ == "argument: "@ + field@,
            r.hints@ == match hints {
                Some(h) => h@,
                None => Seq::<String>::empty(),
            },
    {
        let mut details = String::new();
        details.append("argument: ");
        details.append(field);
        let _ = value;
        Error {
            code: ErrorCode::ValidationInvalidArgument,
            message,
            details,
            hints: match hints {
                Some(h) => h,
                None => Vec::new(),
            },
        }
    }

    /// A required argument that was not given; the details name the accepted forms.
    pub fn validation_missing_argument(accepted: Vec<String>) -> (r: Error)
        ensures
            r.code == ErrorCode::ValidationMissingArgument,
            r.message@ == "Missing required argument"@,
            r.hints@ == accepted@,
    {
        Error {
            code: ErrorCode::ValidationMissingArgument,
            message: String::from_str("Missing required argument"),
            details: String::new(),
            hints: accepted,
        }
    }

    /// A configuration value that cannot be used.
    pub fn config_invalid_value(field: &str, value: Option<String>, message: String) -> (r:
        Error)
        ensures
            r.code == ErrorCode::ConfigInvalidValue,
            r.message@ == message@,
            r.details@ == "field: "@ + field@,
    {
        let mut details = String::new();
        details.append("field: ");
        details.append(field);
        let _ = value;
        Error {
            code: ErrorCode::ConfigInvalidValue,
            message,
            details,
            hints: Vec::new(),
        }
    }

    /// A configuration error described only by its message.
    pub fn config(message: String) -> (r: Error)
        ensures
            r.code == ErrorCode::Config,
            r.message@ == message@,
            r.hints@.len() == 0,
    {
        Error { code: ErrorCode::Config, message, details: String::new(), hints: Vec::new() }
    }

    /// No server record exists under the given id.
    pub fn server_not_found(id: String) -> (r: Error)
        ensures
            r.code == ErrorCode::ServerNotFound,
            r.message@ == "Server not found"@,
            r.details@ == id@,
    {
        Error {
            code: ErrorCode::ServerNotFound,
            message: String::from_str("Server not found"),
            details: id,
            hints: Vec::new(),
        }
    }

    /// No project record exists under the given id.
    pub fn project_not_found(id: String) -> (r: Error)
        ensures
            r.code == ErrorCode::ProjectNotFound,
            r.message@ == "Project not found"@,
            r.details@ == id@,
    {
        Error {
            code: ErrorCode::ProjectNotFound,
            message: String::from_str("Project not found"),
            details: id,
            hints: Vec::new(),
        }
    }

    /// A server record that cannot be connected to; the hints name the empty
    /// fields.
    pub fn ssh_server_invalid(id: String, missing: Vec<String>) -> (r: Error)
        ensures
            r.code == ErrorCode::SshServerInvalid,
            r.message@ == "Server is not properly configured"@,
            r.details@ == id@,
            r.hints@ == missing@,
    {
        Error {
            code: ErrorCode::SshServerInvalid,
            message: String::from_str("Server is not properly configured"),
            details: id,
            hints: missing,
        }
    }

    /// No module manifest exists under the given id; the hints list what is available.
    pub fn module_not_found(id: String, suggestions: Vec<String>) -> (r: Error)
        ensures
            r.code == ErrorCode::ModuleNotFound,
            r.message@ == "Module not found"@,
            r.details@ == id@,
            r.hints@ == suggestions@,
    {
        Error {
            code: ErrorCode::ModuleNotFound,
            message: String::from_str("Module not found"),
            details: id,
            hints: suggestions,
        }
    }

    /// A value that should have been well-formed JSON was not.
    pub fn internal_json(message: String, context: Option<String>) -> (r: Error)
        ensures
            r.code == ErrorCode::InternalJson,
            r.message@ == message@,
            r.details@ == match context {
                Some(c) => c@,
                None => Seq::<char>::empty(),
            },
    {
        Error {
            code: ErrorCode::InternalJson,
            message,
            details: match context {
                Some(c) => c,
                None => String::new(),
            },
            hints: Vec::new(),
        }
    }

    /// A state the library does not expect to reach.
    pub fn internal_unexpected(message: String) -> (r: Error)
        ensures
            r.code == ErrorCode::InternalUnexpected,
            r.message@ == message@,
    {
        Error {
            code: ErrorCode::InternalUnexpected,
            message,
            details: String::new(),
            hints: Vec::new(),
        }
    }

    /// An error that fits no narrower code.
    pub fn other(message: String) -> (r: Error)
        ensures
            r.code == ErrorCode::Other,
            r.message@ == message@,
            r.hints@.len() == 0,
    {
        Error { code: ErrorCode::Other, message, details: String::new(), hints: Vec::new() }
    }

    /// The same error with one more remediation hint.
    pub fn with_hint(self, hint: String) -> (r: Error)
        ensures
            r.code == self.code,
            r.message@ == self.message@,
            r.details@ == self.details@,
            r.hints@ == self.hints@.push(hint),
    {
        let mut hints = self.hints;
        hints.push(hint);
        Error { code: self.code, message: self.message, details: self.details, hints }
    }
}

} // verus!
