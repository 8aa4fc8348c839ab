use vstd::prelude::*;
use vstd::string::StringExecFns;

verus! {

/// What can go wrong while a catalog is loaded or a call is prepared.
#[derive(Debug, PartialEq, Eq)]
pub enum Failure {
    /// Discovery found no page under the path.
    NoPages { path: String },
    /// A function name is taken, and so is the name that the page would give it instead.
    DuplicateFunction { name: String, path: String },
    /// A page was read from a path that names no file.
    BadPagePath { path: String },
    /// No page of the catalog holds a function of this name.
    UnknownFunction { name: String },
    /// A required parameter of the function has no argument.
    MissingArgument { name: String, function: String },
    /// An argument names no parameter of the function.
    UnknownArgument { name: String, function: String },
    /// A placeholder without a default names an argument that was not given.
    ArgumentNotProvided { name: String },
    /// A placeholder without a default names an environment variable that is not set.
    EnvVarMissing { name: String },
    /// The command has to run in a container and the function declares none.
    ContainerRequired { function: String },
    /// The command line holds no token.
    EmptyArgv,
    /// The command line names no application.
    NoApplication,
    /// The function has no command line for this operating system.
    PlatformUnsupported { os: String },
    /// The name is none of the known tool schemas.
    UnknownFlavor { name: String },
    /// The connection string for the remote shell is not `[user@]host[:port]`, or its
    /// key file is missing.
    BadRemoteSpec { fault: RemoteSpecFault },
    /// A `KEY=value` pair holds no `=`.
    BadKeyValue { text: String },
    /// No template file of this name is at hand.
    TemplateNotFound { name: String },
    /// The container runtime is not found on this machine.
    RuntimeNotFound { runtime: String },
    /// The command has an environment overlay and no file was made for it.
    EnvFileMissing,
    /// What happened is not what the call was waiting for.
    UnexpectedEvent,
    /// The command that tries the remote shell ended with this exit code.
    RemoteTestFailed { exit_code: i64 },
    /// The command that tries the remote shell put out this, not what it echoes.
    RemoteTestOutput { output: String },
    /// The container runtime could not pull or build the image, or was not found.
    ContainerRuntimeError { reason: String },
    /// The session with the remote shell failed.
    RemoteExecFailure { reason: String },
    /// The command could not be run on this machine.
    LocalExecFailure { reason: String },
}

/// Why a connection string was rejected.
#[derive(Debug, Clone, Copy, PartialEq, Eq)]
pub enum RemoteSpecFault {
    Empty,
    TooManyAt,
    TooManyColons,
    BadPort,
    MissingKey,
}

/// A [`Failure`] with each text as a sequence of characters.
pub enum FailureView {
    NoPages { path: Seq<char> },
    DuplicateFunction { name: Seq<char>, path: Seq<char> },
    BadPagePath { path: Seq<char> },
    UnknownFunction { name: Seq<char> },
    MissingArgument { name: Seq<char>, function: Seq<char> },
    UnknownArgument { name: Seq<char>, function: Seq<char> },
    ArgumentNotProvided { name: Seq<char> },
    EnvVarMissing { name: Seq<char> },
    ContainerRequired { function: Seq<char> },
    EmptyArgv,
    NoApplication,
    PlatformUnsupported { os: Seq<char> },
    UnknownFlavor { name: Seq<char> },
    BadRemoteSpec { fault: RemoteSpecFault },
    BadKeyValue { text: Seq<char> },
    TemplateNotFound { name: Seq<char> },
    RuntimeNotFound { runtime: Seq<char> },
    EnvFileMissing,
    UnexpectedEvent,
    RemoteTestFailed { exit_code: i64 },
    RemoteTestOutput { output: Seq<char> },
    ContainerRuntimeError { reason: Seq<char> },
    RemoteExecFailure { reason: Seq<char> },
    LocalExecFailure { reason: Seq<char> },
}

impl View for Failure {
    type V = FailureView;

    open spec fn view(&self) -> FailureView {
        match *self {
            Failure::NoPages { path } => FailureView::NoPages { path: path@ },
            Failure::DuplicateFunction { name, path } => FailureView::DuplicateFunction {
                name: name@,
                path: path@,
            },
            Failure::BadPagePath { path } => FailureView::BadPagePath { path: path@ },
            Failure::UnknownFunction { name } => FailureView::UnknownFunction { name: name@ },
            Failure::MissingArgument { name, function } => FailureView::MissingArgument {
                name: name@,
                function: function@,
            },
            Failure::UnknownArgument { name, function } => FailureView::UnknownArgument {
                name: name@,
                function: function@,
            },
            Failure::ArgumentNotProvided { name } => FailureView::ArgumentNotProvided { name: name@ },
            Failure::EnvVarMissing { name } => FailureView::EnvVarMissing { name: name@ },
            Failure::ContainerRequired { function } => FailureView::ContainerRequired {
                function: function@,
            },
            Failure::EmptyArgv => FailureView::EmptyArgv,
            Failure::NoApplication => FailureView::NoApplication,
            Failure::PlatformUnsupported { os } => FailureView::PlatformUnsupported { os: os@ },
            Failure::UnknownFlavor { name } => FailureView::UnknownFlavor { name: name@ },
            Failure::BadRemoteSpec { fault } => FailureView::BadRemoteSpec { fault },
            Failure::BadKeyValue { text } => FailureView::BadKeyValue { text: text@ },
            Failure::TemplateNotFound { name } => FailureView::TemplateNotFound { name: name@ },
            Failure::RuntimeNotFound { runtime } => FailureView::RuntimeNotFound {
                runtime: runtime@,
            },
            Failure::EnvFileMissing => FailureView::EnvFileMissing,
            Failure::UnexpectedEvent => FailureView::UnexpectedEvent,
            Failure::RemoteTestFailed { exit_code } => FailureView::RemoteTestFailed { exit_code },
            Failure::RemoteTestOutput { output } => FailureView::RemoteTestOutput {
                output: output@,
            },
            Failure::ContainerRuntimeError { reason } => FailureView::ContainerRuntimeError {
                reason: reason@,
            },
            Failure::RemoteExecFailure { reason } => FailureView::RemoteExecFailure {
                reason: reason@,
            },
            Failure::LocalExecFailure { reason } => FailureView::LocalExecFailure {
                reason: reason@,
            },
        }
    }
}

impl RemoteSpecFault {
    /// The sentence that tells the user what is wrong.
    pub open spec fn message(self) -> Seq<char> {
        match self {
            RemoteSpecFault::Empty => "SSH connection string cannot be empty"@,
            RemoteSpecFault::TooManyAt => "invalid SSH connection string format"@,
            RemoteSpecFault::TooManyColons => "invalid host format"@,
            RemoteSpecFault::BadPort => "invalid port"@,
            RemoteSpecFault::MissingKey => "public key file does not exist"@,
        }
    }
}

impl FailureView {
    /// The sentence that tells the user what went wrong.
    pub open spec fn message(self) -> Seq<char> {
        match self {
            FailureView::NoPages { path } => "no pages found in "@ + path,
            FailureView::DuplicateFunction { name, path } => "function name "@ + name + " in "@
                + path + " is not unique"@,
            FailureView::BadPagePath { path } => "no file name in "@ + path,
            FailureView::UnknownFunction { name } => "function "@ + name + " not found"@,
            FailureView::MissingArgument { name, function } => "missing required argument "@ + name
                + " for function "@ + function,
            FailureView::UnknownArgument { name, function } => "unknown argument "@ + name
                + " for function "@ + function,
            FailureView::ArgumentNotProvided { name } => "argument "@ + name + " not provided"@,
            FailureView::EnvVarMissing { name } => "environment variable "@ + name + " not set"@,
            FailureView::ContainerRequired { function } => "container required for function "@
                + function,
            FailureView::EmptyArgv => "empty command line"@,
            FailureView::NoApplication => "could not determine application name from command line"@,
            FailureView::PlatformUnsupported { os } => "no command line for platform "@ + os,
            FailureView::UnknownFlavor { name } => "unknown flavor: "@ + name,
            FailureView::BadRemoteSpec { fault } => fault.message(),
            FailureView::BadKeyValue { text } => "invalid KEY=value: no `=` found in `"@ + text
                + "`"@,
            FailureView::TemplateNotFound { name } => "template not found: "@ + name,
            FailureView::RuntimeNotFound { runtime } => runtime + " executable not found"@,
            FailureView::EnvFileMissing => "no env file for the environment of the command"@,
            FailureView::UnexpectedEvent => "unexpected event for the state of the call"@,
            FailureView::RemoteTestFailed { exit_code } => "failed to execute command: exit code "@
                + crate::text::decimal(exit_code as int),
            FailureView::RemoteTestOutput { output } => "unexpected output: "@ + output,
            FailureView::ContainerRuntimeError { reason } => "container runtime error: "@ + reason,
            FailureView::RemoteExecFailure { reason } => "remote execution failed: "@ + reason,
            FailureView::LocalExecFailure { reason } => "execution failed: "@ + reason,
        }
    }
}

/// `before`, then `middle`, then `after`.
fn sentence(before: &str, middle: &str, after: &str) -> (s: String)
    ensures
        s@ == before@ + middle@ + after@,
{
    let mut s = String::from_str(before);
    s.append(middle);
    s.append(after);
    s
}

/// `before`, then `rest`.
fn phrase(before: &str, rest: &str) -> (s: String)
    ensures
        s@ == before@ + rest@,
{
    let mut s = String::from_str(before);
    s.append(rest);
    s
}

impl Failure {
    /// The sentence that tells the user what went wrong.
    pub fn to_string(&self) -> (s: String)
        ensures
            s@ == self@.message(),
    {
        match self {
            Failure::NoPages { path } => phrase("no pages found in ", path.as_str()),
            Failure::DuplicateFunction { name, path } => {
                let mut s = sentence("function name ", name.as_str(), " in ");
                s.append(path.as_str());
                s.append(" is not unique");
                s
            },
            Failure::BadPagePath { path } => phrase("no file name in ", path.as_str()),
            Failure::UnknownFunction { name } => sentence("function ", name.as_str(), " not found"),
            Failure::MissingArgument { name, function } => {
                let mut s = sentence("missing required argument ", name.as_str(), " for function ");
                s.append(function.as_str());
                s
            },
            Failure::UnknownArgument { name, function } => {
                let mut s = sentence("unknown argument ", name.as_str(), " for function ");
                s.append(function.as_str());
                s
            },
            Failure::ArgumentNotProvided { name } => sentence(
                "argument ",
                name.as_str(),
                " not provided",
            ),
            Failure::EnvVarMissing { name } => sentence(
                "environment variable ",
                name.as_str(),
                " not set",
            ),
            Failure::ContainerRequired { function } => phrase("container required for function ", function.as_str()),
            Failure::EmptyArgv => String::from_str("empty command line"),
            Failure::NoApplication => String::from_str(
                "could not determine application name from command line",
            ),
            Failure::PlatformUnsupported { os } => phrase("no command line for platform ", os.as_str()),
            Failure::UnknownFlavor { name } => phrase("unknown flavor: ", name.as_str()),
            Failure::BadRemoteSpec { fault } => match fault {
                RemoteSpecFault::Empty => String::from_str("SSH connection string cannot be empty"),
                RemoteSpecFault::TooManyAt => String::from_str(
                    "invalid SSH connection string format",
                ),
                RemoteSpecFault::TooManyColons => String::from_str("invalid host format"),
                RemoteSpecFault::BadPort => String::from_str("invalid port"),
                RemoteSpecFault::MissingKey => String::from_str("public key file does not exist"),
            },
            Failure::BadKeyValue { text } => sentence(
                "invalid KEY=value: no `=` found in `",
                text.as_str(),
                "`",
            ),
            Failure::TemplateNotFound { name } => phrase("template not found: ", name.as_str()),
            Failure::RuntimeNotFound { runtime } => phrase(
                runtime.as_str(),
                " executable not found",
            ),
            Failure::EnvFileMissing => String::from_str(
                "no env file for the environment of the command",
            ),
            Failure::UnexpectedEvent => String::from_str(
                "unexpected event for the state of the call",
            ),
            Failure::RemoteTestFailed { exit_code } => phrase(
                "failed to execute command: exit code ",
                crate::text::decimal_string(*exit_code).as_str(),
            ),
            Failure::RemoteTestOutput { output } => phrase("unexpected output: ", output.as_str()),
            Failure::ContainerRuntimeError { reason } => phrase(
                "container runtime error: ",
                reason.as_str(),
            ),
            Failure::RemoteExecFailure { reason } => phrase(
                "remote execution failed: ",
                reason.as_str(),
            ),
            Failure::LocalExecFailure { reason } => phrase("execution failed: ", reason.as_str()),
        }
    }
}

} // verus!
