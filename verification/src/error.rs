//! The failures of a provider, their texts and how they are classified at
//! the level of the remote call.

use vstd::prelude::*;
use vstd::std_specs::convert::FromSpecImpl;
use vstd::string::StringExecFns;

verus! {

/// `serde_json::Error`, carried through as it is.
#[verifier::external_type_specification]
#[verifier::external_body]
pub struct ExSerdeJsonError(serde_json::Error);

/// `tonic::transport::Error`, carried through as it is.
#[verifier::external_type_specification]
#[verifier::external_body]
pub struct ExTransportError(tonic::transport::Error);

/// `tonic::Status`, carried through as it is.
#[verifier::external_type_specification]
#[verifier::external_body]
pub struct ExStatus(tonic::Status);

/// The text that `serde_json::Error` displays.
pub uninterp spec fn serde_error_text(error: serde_json::Error) -> Seq<char>;

/// The text that `tonic::transport::Error` displays.
pub uninterp spec fn transport_error_text(error: tonic::transport::Error) -> Seq<char>;

/// What `tonic::Status::new` returns for the code of the number `code` and
/// the message `message`.
pub uninterp spec fn status_with(code: i32, message: Seq<char>) -> tonic::Status;

/// `to_string` of `serde_json::Error`: the text of its `Display`.
#[verifier::external_body]
fn display_serde_error(error: &serde_json::Error) -> (text: String)
    ensures
        text@ == serde_error_text(*error),
{
    error.to_string()
}

/// `to_string` of `tonic::transport::Error`: the text of its `Display`.
#[verifier::external_body]
fn display_transport_error(error: &tonic::transport::Error) -> (text: String)
    ensures
        text@ == transport_error_text(*error),
{
    error.to_string()
}

/// `tonic::Status::new`, with the code that `tonic::Code::from` gives for
/// `code`: the status that holds this code and `message`, and nothing else.
#[verifier::external_body]
fn new_status(code: i32, message: String) -> (status: tonic::Status)
    ensures
        status == status_with(code, message@),
{
    tonic::Status::new(tonic::Code::from(code), message)
}

/// How a failure is classified at the level of the remote call.
#[derive(Debug, Clone, Copy, PartialEq, Eq, Structural)]
pub enum StatusCode {
    /// An argument is not valid.
    InvalidArgument,
    /// The time allowed ran out.
    DeadlineExceeded,
    /// What was asked for does not exist.
    NotFound,
    /// What was to be made exists already.
    AlreadyExists,
    /// The caller may not do this.
    PermissionDenied,
    /// A quota or a rate limit is used up.
    ResourceExhausted,
    /// The state of things does not allow the operation.
    FailedPrecondition,
    /// The operation is not there.
    Unimplemented,
    /// Something inside went wrong.
    Internal,
    /// The service cannot be reached for now.
    Unavailable,
}

impl StatusCode {
    /// The number of the code in the protocol of remote calls.
    pub open spec fn spec_number(self) -> i32 {
        match self {
            StatusCode::InvalidArgument => 3,
            StatusCode::DeadlineExceeded => 4,
            StatusCode::NotFound => 5,
            StatusCode::AlreadyExists => 6,
            StatusCode::PermissionDenied => 7,
            StatusCode::ResourceExhausted => 8,
            StatusCode::FailedPrecondition => 9,
            StatusCode::Unimplemented => 12,
            StatusCode::Internal => 13,
            StatusCode::Unavailable => 14,
        }
    }

    /// The number of the code in the protocol of remote calls.
    #[verifier::when_used_as_spec(spec_number)]
    pub fn number(self) -> (n: i32)
        ensures
            n == self.spec_number(),
    {
        match self {
            StatusCode::InvalidArgument => 3,
            StatusCode::DeadlineExceeded => 4,
            StatusCode::NotFound => 5,
            StatusCode::AlreadyExists => 6,
            StatusCode::PermissionDenied => 7,
            StatusCode::ResourceExhausted => 8,
            StatusCode::FailedPrecondition => 9,
            StatusCode::Unimplemented => 12,
            StatusCode::Internal => 13,
            StatusCode::Unavailable => 14,
        }
    }
}

/// A failure of a provider.
#[derive(Debug)]
pub enum ProviderError {
    /// What was asked for was not found.
    NotFound(String),
    /// A value is not valid.
    Validation(String),
    /// The library itself failed.
    Sdk(String),
    /// The configuration is not usable.
    Configuration(String),
    /// The resource type is not known.
    UnknownResource(String),
    /// JSON could not be read or written.
    Serialization(serde_json::Error),
    /// The transport failed.
    Transport(tonic::transport::Error),
    /// What was to be made exists already.
    AlreadyExists(String),
    /// The caller may not do this.
    PermissionDenied(String),
    /// A quota or a rate limit is used up.
    ResourceExhausted(String),
    /// The service cannot be reached for now.
    Unavailable(String),
    /// The time allowed ran out.
    DeadlineExceeded(String),
    /// The state of things does not allow the operation.
    FailedPrecondition(String),
    /// The operation is not there.
    Unimplemented(String),
    /// The request itself is not in order.
    InvalidRequest(String),
}

impl ProviderError {
    /// What the failure carries: its message, or the text of the error it
    /// wraps.
    pub open spec fn detail(self) -> Seq<char> {
        match self {
            ProviderError::NotFound(message) => message@,
            ProviderError::Validation(message) => message@,
            ProviderError::Sdk(message) => message@,
            ProviderError::Configuration(message) => message@,
            ProviderError::UnknownResource(message) => message@,
            ProviderError::Serialization(error) => serde_error_text(error),
            ProviderError::Transport(error) => transport_error_text(error),
            ProviderError::AlreadyExists(message) => message@,
            ProviderError::PermissionDenied(message) => message@,
            ProviderError::ResourceExhausted(message) => message@,
            ProviderError::Unavailable(message) => message@,
            ProviderError::DeadlineExceeded(message) => message@,
            ProviderError::FailedPrecondition(message) => message@,
            ProviderError::Unimplemented(message) => message@,
            ProviderError::InvalidRequest(message) => message@,
        }
    }

    /// What stands before the detail in the failure's text.
    pub open spec fn heading(self) -> Seq<char> {
        match self {
            ProviderError::NotFound(_) => "Resource not found: "@,
            ProviderError::Validation(_) => "Validation error: "@,
            ProviderError::Sdk(_) => "SDK error: "@,
            ProviderError::Configuration(_) => "Configuration error: "@,
            ProviderError::UnknownResource(_) => "Unknown resource type: "@,
            ProviderError::Serialization(_) => "Serialization error: "@,
            ProviderError::Transport(_) => "Transport error: "@,
            ProviderError::AlreadyExists(_) => "Resource already exists: "@,
            ProviderError::PermissionDenied(_) => "Permission denied: "@,
            ProviderError::ResourceExhausted(_) => "Resource exhausted: "@,
            ProviderError::Unavailable(_) => "Service unavailable: "@,
            ProviderError::DeadlineExceeded(_) => "Deadline exceeded: "@,
            ProviderError::FailedPrecondition(_) => "Failed precondition: "@,
            ProviderError::Unimplemented(_) => "Unimplemented: "@,
            ProviderError::InvalidRequest(_) => "Invalid request: "@,
        }
    }

    /// The failure's text: its heading and its detail.
    pub open spec fn text(self) -> Seq<char> {
        self.heading() + self.detail()
    }

    /// How the failure is classified at the level of the remote call.
    pub open spec fn classification(self) -> StatusCode {
        match self {
            ProviderError::NotFound(_) => StatusCode::NotFound,
            ProviderError::Validation(_) => StatusCode::InvalidArgument,
            ProviderError::Sdk(_) => StatusCode::Internal,
            ProviderError::Configuration(_) => StatusCode::FailedPrecondition,
            ProviderError::UnknownResource(_) => StatusCode::NotFound,
            ProviderError::Serialization(_) => StatusCode::InvalidArgument,
            ProviderError::Transport(_) => StatusCode::Unavailable,
            ProviderError::AlreadyExists(_) => StatusCode::AlreadyExists,
            ProviderError::PermissionDenied(_) => StatusCode::PermissionDenied,
            ProviderError::ResourceExhausted(_) => StatusCode::ResourceExhausted,
            ProviderError::Unavailable(_) => StatusCode::Unavailable,
            ProviderError::DeadlineExceeded(_) => StatusCode::DeadlineExceeded,
            ProviderError::FailedPrecondition(_) => StatusCode::FailedPrecondition,
            ProviderError::Unimplemented(_) => StatusCode::Unimplemented,
            ProviderError::InvalidRequest(_) => StatusCode::InvalidArgument,
        }
    }

    /// The message that the status of the failure carries: the whole text
    /// where the failure wraps another error, else the message alone.
    pub open spec fn status_message(self) -> Seq<char> {
        match self {
            ProviderError::Serialization(_) => self.text(),
            ProviderError::Transport(_) => self.text(),
            _ => self.detail(),
        }
    }

    /// What the failure carries.
    fn detail_text(&self) -> (text: String)
        ensures
            text@ == self.detail(),
    {
        match self {
            ProviderError::NotFound(message) => message.clone(),
            ProviderError::Validation(message) => message.clone(),
            ProviderError::Sdk(message) => message.clone(),
            ProviderError::Configuration(message) => message.clone(),
            ProviderError::UnknownResource(message) => message.clone(),
            ProviderError::Serialization(error) => display_serde_error(error),
            ProviderError::Transport(error) => display_transport_error(error),
            ProviderError::AlreadyExists(message) => message.clone(),
            ProviderError::PermissionDenied(message) => message.clone(),
            ProviderError::ResourceExhausted(message) => message.clone(),
            ProviderError::Unavailable(message) => message.clone(),
            ProviderError::DeadlineExceeded(message) => message.clone(),
            ProviderError::FailedPrecondition(message) => message.clone(),
            ProviderError::Unimplemented(message) => message.clone(),
            ProviderError::InvalidRequest(message) => message.clone(),
        }
    }

    /// The failure's text.
    pub fn to_string(&self) -> (text: String)
        ensures
            text@ == self.text(),
    {
        let heading = match self {
            ProviderError::NotFound(_) => "Resource not found: ",
            ProviderError::Validation(_) => "Validation error: ",
            ProviderError::Sdk(_) => "SDK error: ",
            ProviderError::Configuration(_) => "Configuration error: ",
            ProviderError::UnknownResource(_) => "Unknown resource type: ",
            ProviderError::Serialization(_) => "Serialization error: ",
            ProviderError::Transport(_) => "Transport error: ",
            ProviderError::AlreadyExists(_) => "Resource already exists: ",
            ProviderError::PermissionDenied(_) => "Permission denied: ",
            ProviderError::ResourceExhausted(_) => "Resource exhausted: ",
            ProviderError::Unavailable(_) => "Service unavailable: ",
            ProviderError::DeadlineExceeded(_) => "Deadline exceeded: ",
            ProviderError::FailedPrecondition(_) => "Failed precondition: ",
            ProviderError::Unimplemented(_) => "Unimplemented: ",
            ProviderError::InvalidRequest(_) => "Invalid request: ",
        };
        let mut text = String::from_str(heading);
        text.append(self.detail_text().as_str());
        text
    }

    /// How the failure is classified at the level of the remote call.
    pub fn status_code(&self) -> (code: StatusCode)
        ensures
            code == self.classification(),
    {
        match self {
            ProviderError::NotFound(_) => StatusCode::NotFound,
            ProviderError::Validation(_) => StatusCode::InvalidArgument,
            ProviderError::Sdk(_) => StatusCode::Internal,
            ProviderError::Configuration(_) => StatusCode::FailedPrecondition,
            ProviderError::UnknownResource(_) => StatusCode::NotFound,
            ProviderError::Serialization(_) => StatusCode::InvalidArgument,
            ProviderError::Transport(_) => StatusCode::Unavailable,
            ProviderError::AlreadyExists(_) => StatusCode::AlreadyExists,
            ProviderError::PermissionDenied(_) => StatusCode::PermissionDenied,
            ProviderError::ResourceExhausted(_) => StatusCode::ResourceExhausted,
            ProviderError::Unavailable(_) => StatusCode::Unavailable,
            ProviderError::DeadlineExceeded(_) => StatusCode::DeadlineExceeded,
            ProviderError::FailedPrecondition(_) => StatusCode::FailedPrecondition,
            ProviderError::Unimplemented(_) => StatusCode::Unimplemented,
            ProviderError::InvalidRequest(_) => StatusCode::InvalidArgument,
        }
    }

    /// The status that reports the failure to the caller of a remote call.
    pub fn into_status(self) -> (status: tonic::Status)
        ensures
            status == status_with(self.classification().spec_number(), self.status_message()),
    {
        let code = self.status_code().number();
        let message = match &self {
            ProviderError::Serialization(_) => self.to_string(),
            ProviderError::Transport(_) => self.to_string(),
            _ => self.detail_text(),
        };
        new_status(code, message)
    }
}

impl From<serde_json::Error> for ProviderError {
    fn from(error: serde_json::Error) -> (failure: ProviderError) {
        ProviderError::Serialization(error)
    }
}

impl FromSpecImpl<serde_json::Error> for ProviderError {
    open spec fn obeys_from_spec() -> bool {
        true
    }

    open spec fn from_spec(error: serde_json::Error) -> ProviderError {
        ProviderError::Serialization(error)
    }
}

impl From<tonic::transport::Error> for ProviderError {
    fn from(error: tonic::transport::Error) -> (failure: ProviderError) {
        ProviderError::Transport(error)
    }
}

impl FromSpecImpl<tonic::transport::Error> for ProviderError {
    open spec fn obeys_from_spec() -> bool {
        true
    }

    open spec fn from_spec(error: tonic::transport::Error) -> ProviderError {
        ProviderError::Transport(error)
    }
}

impl From<ProviderError> for tonic::Status {
    fn from(failure: ProviderError) -> (status: tonic::Status) {
        failure.into_status()
    }
}

impl FromSpecImpl<ProviderError> for tonic::Status {
    open spec fn obeys_from_spec() -> bool {
        true
    }

    open spec fn from_spec(failure: ProviderError) -> tonic::Status {
        status_with(failure.classification().spec_number(), failure.status_message())
    }
}

} // verus!
