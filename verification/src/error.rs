//! Errors returned from the configuration, the services and the outgoing channels of nodes.

use crate::service_type::ServiceType;
use crate::service_uri::Uri;
use vstd::prelude::*;

verus! {

#[verifier::external_type_specification]
#[verifier::external_body]
pub struct ExIoError(std::io::Error);

#[verifier::external_type_specification]
#[verifier::external_body]
pub struct ExUtf8Error(std::str::Utf8Error);

/// Error creation shared by the error types of services and channels.
pub trait Error: Sized {
    /// The error is the one that `custom` makes of the message `msg`.
    spec fn is_custom(&self, msg: Seq<char>) -> bool;

    fn custom(msg: &str) -> (r: Self)
        ensures
            r.is_custom(msg@),
    ;

    fn service_not_found(tp: &ServiceType) -> (r: Self)
        ensures
            r.is_custom(not_found_text(tp.full_name_view())),
    {
        Self::custom(service_not_found_message(tp).as_str())
    }

    fn context_init_failed(uri: &Uri, tp: &ServiceType, cause: &str) -> (r: Self)
        ensures
            r.is_custom(init_failed_text("context"@, uri@, tp.full_name_view(), cause@)),
    {
        Self::custom(init_failed_message("context", uri, tp, cause).as_str())
    }

    fn service_init_failed(uri: &Uri, tp: &ServiceType, cause: &str) -> (r: Self)
        ensures
            r.is_custom(init_failed_text("service"@, uri@, tp.full_name_view(), cause@)),
    {
        Self::custom(init_failed_message("service", uri, tp, cause).as_str())
    }
}

/// The message of a service that is not found, by the full name of its type.
pub open spec fn not_found_text(full_name: Seq<char>) -> Seq<char> {
    "not found service. service_type: "@ + full_name
}

/// The message of a failed initialization of a context or a service.
pub open spec fn init_failed_text(
    what: Seq<char>,
    uri: Seq<char>,
    full_name: Seq<char>,
    cause: Seq<char>,
) -> Seq<char> {
    "an error occured while "@ + what + " initialization uri:"@ + uri + ", service_type: "@
        + full_name + ", cause: "@ + cause
}

/// `"not found service. service_type: <full name>"`.
pub fn service_not_found_message(tp: &ServiceType) -> (r: String)
    ensures
        r@ == not_found_text(tp.full_name_view()),
{
    let mut s = String::new();
    s.append("not found service. service_type: ");
    s.append(tp.full_name());
    proof {
        assert(s@ =~= "not found service. service_type: "@ + tp.full_name_view());
    }
    s
}

/// `"an error occured while <what> initialization uri:<uri>, service_type: <type>, cause: <cause>"`.
pub fn init_failed_message(what: &str, uri: &Uri, tp: &ServiceType, cause: &str) -> (r: String)
    ensures
        r@ == init_failed_text(what@, uri@, tp.full_name_view(), cause@),
{
    let mut s = String::new();
    s.append("an error occured while ");
    s.append(what);
    s.append(" initialization uri:");
    s.append(uri.as_str());
    s.append(", service_type: ");
    s.append(tp.full_name());
    s.append(", cause: ");
    s.append(cause);
    proof {
        assert(s@ =~= "an error occured while "@ + what@ + " initialization uri:"@ + uri@
            + ", service_type: "@ + tp.full_name_view() + ", cause: "@ + cause@);
    }
    s
}

/// An error of a running service.
#[derive(Debug)]
pub enum ServiceError {
    ConfigInitFailed { source: ConfigError },
    OutgoingError { source: OutgoingError },
    IOError { source: std::io::Error },
    Error { inner: String },
}

impl ServiceError {
    pub fn error(msg: &str) -> (r: ServiceError)
        ensures
            r matches ServiceError::Error { inner } && inner@ == msg@,
    {
        ServiceError::Error { inner: msg.to_owned() }
    }
}

impl Error for ServiceError {
    open spec fn is_custom(&self, msg: Seq<char>) -> bool {
        self matches ServiceError::Error { inner } && inner@ == msg
    }

    fn custom(msg: &str) -> (r: ServiceError) {
        ServiceError::error(msg)
    }
}

/// An error in the configuration of a graph or a service.
#[derive(Debug)]
pub enum ConfigError {
    ValidationError { inner: String },
    Utf8Error { source: std::str::Utf8Error },
    IOError { source: std::io::Error },
    NotFoundKey { inner: String },
    InvalidKeyType { key: String, expected: String },
    InvalidServiceType { name_space: String, service_name: String, msg: String },
    Error { inner: String },
}

/// What a `ConfigError` says, with its texts as character sequences.
pub enum ConfigErrorModel {
    ValidationError(Seq<char>),
    Utf8Error,
    IOError,
    NotFoundKey(Seq<char>),
    InvalidKeyType(Seq<char>, Seq<char>),
    InvalidServiceType(Seq<char>, Seq<char>, Seq<char>),
    Error(Seq<char>),
}

impl View for ConfigError {
    type V = ConfigErrorModel;

    open spec fn view(&self) -> ConfigErrorModel {
        match self {
            ConfigError::ValidationError { inner } => ConfigErrorModel::ValidationError(inner@),
            ConfigError::Utf8Error { .. } => ConfigErrorModel::Utf8Error,
            ConfigError::IOError { .. } => ConfigErrorModel::IOError,
            ConfigError::NotFoundKey { inner } => ConfigErrorModel::NotFoundKey(inner@),
            ConfigError::InvalidKeyType { key, expected } => ConfigErrorModel::InvalidKeyType(
                key@,
                expected@,
            ),
            ConfigError::InvalidServiceType { name_space, service_name, msg } =>
                ConfigErrorModel::InvalidServiceType(name_space@, service_name@, msg@),
            ConfigError::Error { inner } => ConfigErrorModel::Error(inner@),
        }
    }
}

impl ConfigError {
    pub fn error(msg: &str) -> (r: ConfigError)
        ensures
            r@ == ConfigErrorModel::Error(msg@),
    {
        ConfigError::Error { inner: msg.to_owned() }
    }

    pub fn validation_error(msg: &str) -> (r: ConfigError)
        ensures
            r@ == ConfigErrorModel::ValidationError(msg@),
    {
        ConfigError::ValidationError { inner: msg.to_owned() }
    }

    pub fn not_found_key(key: &str) -> (r: ConfigError)
        ensures
            r@ == ConfigErrorModel::NotFoundKey(key@),
    {
        ConfigError::NotFoundKey { inner: key.to_owned() }
    }

    pub fn invalid_key_type(key: &str, expected: &str) -> (r: ConfigError)
        ensures
            r@ == ConfigErrorModel::InvalidKeyType(key@, expected@),
    {
        ConfigError::InvalidKeyType { key: key.to_owned(), expected: expected.to_owned() }
    }

    pub fn invalid_service_type(name_space: &str, service_name: &str, msg: &str) -> (r:
        ConfigError)
        ensures
            r@ == ConfigErrorModel::InvalidServiceType(name_space@, service_name@, msg@),
    {
        ConfigError::InvalidServiceType {
            name_space: name_space.to_owned(),
            service_name: service_name.to_owned(),
            msg: msg.to_owned(),
        }
    }
}

/// An error of sending on an outgoing channel.
#[derive(Debug)]
pub enum OutgoingError {
    SendError { inner: String },
    NotFoundOutputPort { port: u8 },
    ReceiverDropped,
    Error { inner: String },
}

impl OutgoingError {
    pub fn not_found_output_port(port: u8) -> (r: OutgoingError)
        ensures
            r == (OutgoingError::NotFoundOutputPort { port }),
    {
        OutgoingError::NotFoundOutputPort { port }
    }

    pub fn receiver_dropped() -> (r: OutgoingError)
        ensures
            r == OutgoingError::ReceiverDropped,
    {
        OutgoingError::ReceiverDropped
    }
}

impl Error for OutgoingError {
    open spec fn is_custom(&self, msg: Seq<char>) -> bool {
        self matches OutgoingError::Error { inner } && inner@ == msg
    }

    fn custom(msg: &str) -> (r: OutgoingError) {
        OutgoingError::Error { inner: msg.to_owned() }
    }
}

} // verus!
