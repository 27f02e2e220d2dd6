//! The application-wide error type.
//!
//! Every fallible operation of the library reports one of these kinds, so
//! that a caller can tell a transient network failure (worth a bounded
//! retry) from an authentication problem (never retried automatically)
//! and from a structured provider error that carries the provider's own
//! code.

use vstd::prelude::*;

verus! {

/// One error of the application, tagged with its kind.
#[derive(Debug)]
pub enum AppError {
    /// Connection failure, timeout, DNS trouble.
    Network { message: String },
    /// Expired or invalid credentials, cookies or tokens.
    Auth { message: String },
    /// Reading or writing a local file failed.
    FileIo { message: String },
    /// A provider rejected an upload; `code` is the provider's own code.
    Upload { service: String, code: Option<i32>, message: String },
    /// Missing or invalid configuration.
    Config { message: String },
    /// Clipboard access failed.
    Clipboard { message: String },
    /// An external helper process or service failed.
    External { message: String },
    /// Input validation failed.
    Validation { message: String },
    /// A WebDAV endpoint reported a failure.
    WebDAV { message: String },
    /// An object store reported a failure.
    Storage { message: String },
}

impl AppError {
    /// Network errors are the only kind that a bounded retry may fix.
    pub open spec fn is_retryable(&self) -> bool {
        self is Network
    }

    /// Auth errors must never be retried; the caller should prompt for
    /// re-authentication instead.
    pub open spec fn is_auth(&self) -> bool {
        self is Auth
    }

    pub fn network(message: String) -> (e: AppError)
        ensures
            e == (AppError::Network { message }),
    {
        AppError::Network { message }
    }

    pub fn auth(message: String) -> (e: AppError)
        ensures
            e == (AppError::Auth { message }),
    {
        AppError::Auth { message }
    }

    pub fn file_io(message: String) -> (e: AppError)
        ensures
            e == (AppError::FileIo { message }),
    {
        AppError::FileIo { message }
    }

    pub fn upload(service: String, message: String) -> (e: AppError)
        ensures
            e == (AppError::Upload { service, code: None, message }),
    {
        AppError::Upload { service, code: None, message }
    }

    pub fn upload_with_code(service: String, code: i32, message: String) -> (e: AppError)
        ensures
            e == (AppError::Upload { service, code: Some(code), message }),
    {
        AppError::Upload { service, code: Some(code), message }
    }

    pub fn config(message: String) -> (e: AppError)
        ensures
            e == (AppError::Config { message }),
    {
        AppError::Config { message }
    }

    pub fn clipboard(message: String) -> (e: AppError)
        ensures
            e == (AppError::Clipboard { message }),
    {
        AppError::Clipboard { message }
    }

    pub fn external(message: String) -> (e: AppError)
        ensures
            e == (AppError::External { message }),
    {
        AppError::External { message }
    }

    pub fn validation(message: String) -> (e: AppError)
        ensures
            e == (AppError::Validation { message }),
    {
        AppError::Validation { message }
    }

    pub fn webdav(message: String) -> (e: AppError)
        ensures
            e == (AppError::WebDAV { message }),
    {
        AppError::WebDAV { message }
    }

    pub fn storage(message: String) -> (e: AppError)
        ensures
            e == (AppError::Storage { message }),
    {
        AppError::Storage { message }
    }

    /// A short human-readable rendering: the kind's label, then the
    /// message; a provider error leads with the service name.
    pub fn describe(&self) -> (r: String)
        ensures
            (self matches AppError::Network { message } ==> r@ == "network error: "@ + message@),
            (self matches AppError::Auth { message } ==> r@ == "authentication error: "@
                + message@),
            (self matches AppError::FileIo { message } ==> r@ == "file error: "@ + message@),
            (self matches AppError::Upload { service, message, .. } ==> r@ == service@
                + " upload error: "@ + message@),
            (self matches AppError::Config { message } ==> r@ == "configuration error: "@
                + message@),
            (self matches AppError::Clipboard { message } ==> r@ == "clipboard error: "@
                + message@),
            (self matches AppError::External { message } ==> r@ == "external service error: "@
                + message@),
            (self matches AppError::Validation { message } ==> r@ == "validation error: "@
                + message@),
            (self matches AppError::WebDAV { message } ==> r@ == "WebDAV error: "@ + message@),
            (self matches AppError::Storage { message } ==> r@ == "storage error: "@ + message@),
    {
        match self {
            AppError::Network { message } => prefixed("network error: ", message),
            AppError::Auth { message } => prefixed("authentication error: ", message),
            AppError::FileIo { message } => prefixed("file error: ", message),
            AppError::Upload { service, message, .. } => {
                let mut out = service.clone();
                out.append(" upload error: ");
                out.append(message.as_str());
                out
            },
            AppError::Config { message } => prefixed("configuration error: ", message),
            AppError::Clipboard { message } => prefixed("clipboard error: ", message),
            AppError::External { message } => prefixed("external service error: ", message),
            AppError::Validation { message } => prefixed("validation error: ", message),
            AppError::WebDAV { message } => prefixed("WebDAV error: ", message),
            AppError::Storage { message } => prefixed("storage error: ", message),
        }
    }
}

/// A label followed by a message.
fn prefixed(label: &str, message: &String) -> (r: String)
    ensures
        r@ == label@ + message@,
{
    let mut out = label.to_owned();
    out.append(message.as_str());
    out
}

impl From<String> for AppError {
    fn from(message: String) -> (e: AppError) {
        AppError::Network { message }
    }
}

impl vstd::std_specs::convert::FromSpecImpl<String> for AppError {
    open spec fn obeys_from_spec() -> bool {
        true
    }

    open spec fn from_spec(message: String) -> AppError {
        AppError::Network { message }
    }
}

/// Maps the two transport-level failure flags of an HTTP client error to
/// the network kind, with a fixed message for the two common cases.  This
/// is the library half of converting a client error; the caller supplies
/// the flags and the fallback message as plain values.
pub fn classify_transport_error(is_timeout: bool, is_connect: bool, message: String) -> (e:
    AppError)
    ensures
        e is Network,
        is_timeout ==> (e matches AppError::Network { message: m } && m@ == "request timed out"@),
        !is_timeout && is_connect ==> (e matches AppError::Network { message: m } && m@
            == "connection failed"@),
        !is_timeout && !is_connect ==> e == (AppError::Network { message }),
{
    if is_timeout {
        AppError::Network { message: string_from_str("request timed out") }
    } else if is_connect {
        AppError::Network { message: string_from_str("connection failed") }
    } else {
        AppError::Network { message }
    }
}

/// Copies a string slice into an owned `String`.
pub fn string_from_str(s: &str) -> (r: String)
    ensures
        r@ == s@,
{
    s.to_owned()
}

/// Converts the error of a result into an `AppError` of a chosen
/// kind: a success passes through unchanged, a failure becomes an
/// error of the named kind whose message renders the source error.
/// The rendering comes from the source type's display logic, so
/// nothing is stated of the message text.
pub trait IntoAppError<T>: Sized {
    /// The payload when the conversion will succeed, if any.
    spec fn ok_value(self) -> Option<T>;

    /// Converts the error into the network kind.
    fn into_network_err(self) -> (r: Result<T, AppError>)
        ensures
            match self.ok_value() {
                Some(v) => r == Ok::<T, AppError>(v),
                None => r matches Err(e) && e is Network,
            },
    ;

    /// Converts the error into the file I/O kind.
    fn into_file_io_err(self) -> (r: Result<T, AppError>)
        ensures
            match self.ok_value() {
                Some(v) => r == Ok::<T, AppError>(v),
                None => r matches Err(e) && e is FileIo,
            },
    ;

    /// Converts the error into the configuration kind.
    fn into_config_err(self) -> (r: Result<T, AppError>)
        ensures
            match self.ok_value() {
                Some(v) => r == Ok::<T, AppError>(v),
                None => r matches Err(e) && e is Config,
            },
    ;

    /// Converts the error into the external-service kind.
    fn into_external_err(self) -> (r: Result<T, AppError>)
        ensures
            match self.ok_value() {
                Some(v) => r == Ok::<T, AppError>(v),
                None => r matches Err(e) && e is External,
            },
    ;

    /// Converts the error into the storage kind.
    fn into_storage_err(self) -> (r: Result<T, AppError>)
        ensures
            match self.ok_value() {
                Some(v) => r == Ok::<T, AppError>(v),
                None => r matches Err(e) && e is Storage,
            },
    ;

    /// Converts the error into the WebDAV kind.
    fn into_webdav_err(self) -> (r: Result<T, AppError>)
        ensures
            match self.ok_value() {
                Some(v) => r == Ok::<T, AppError>(v),
                None => r matches Err(e) && e is WebDAV,
            },
    ;
}

impl<T, E: core::fmt::Display> IntoAppError<T> for Result<T, E> {
    open spec fn ok_value(self) -> Option<T> {
        match self {
            Ok(v) => Some(v),
            Err(_) => None,
        }
    }

    fn into_network_err(self) -> Result<T, AppError> {
        match self {
            Ok(v) => Ok(v),
            Err(e) => Err(AppError::Network { message: e.to_string() }),
        }
    }

    fn into_file_io_err(self) -> Result<T, AppError> {
        match self {
            Ok(v) => Ok(v),
            Err(e) => Err(AppError::FileIo { message: e.to_string() }),
        }
    }

    fn into_config_err(self) -> Result<T, AppError> {
        match self {
            Ok(v) => Ok(v),
            Err(e) => Err(AppError::Config { message: e.to_string() }),
        }
    }

    fn into_external_err(self) -> Result<T, AppError> {
        match self {
            Ok(v) => Ok(v),
            Err(e) => Err(AppError::External { message: e.to_string() }),
        }
    }

    fn into_storage_err(self) -> Result<T, AppError> {
        match self {
            Ok(v) => Ok(v),
            Err(e) => Err(AppError::Storage { message: e.to_string() }),
        }
    }

    fn into_webdav_err(self) -> Result<T, AppError> {
        match self {
            Ok(v) => Ok(v),
            Err(e) => Err(AppError::WebDAV { message: e.to_string() }),
        }
    }
}

} // verus!
