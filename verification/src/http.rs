//! The HTTP transport's plain data: its error classification and its client
//! configuration. The transport itself lives outside the library.

use vstd::prelude::*;

verus! {

#[verifier::external_type_specification]
#[verifier::external_body]
pub struct ExIoError(std::io::Error);

/// A transport fault, classified.
#[derive(Debug)]
pub enum HttpError {
    RequestFailed(String),
    InvalidUrl(String),
    Timeout,
    NetworkError(String),
    IoError(std::io::Error),
    TlsError(String),
    TooManyRedirects,
}

/// The display message of a fault, for every variant whose text the library
/// itself determines.
pub open spec fn http_error_msg(e: HttpError) -> Seq<char> {
    match e {
        HttpError::RequestFailed(m) => "Request failed: "@ + m@,
        HttpError::InvalidUrl(m) => "Invalid URL: "@ + m@,
        HttpError::Timeout => "Connection timeout"@,
        HttpError::NetworkError(m) => "Network error: "@ + m@,
        HttpError::IoError(_) => "IO error: "@,
        HttpError::TlsError(m) => "TLS error: "@ + m@,
        HttpError::TooManyRedirects => "Too many redirects"@,
    }
}

impl HttpError {
    /// The display message of the fault; for an I/O fault, the carried
    /// error's own text follows the fixed prefix.
    pub fn message(&self) -> (r: String)
        ensures
            match self {
                HttpError::IoError(_) => exists|t: Seq<char>|
                    r@ == #[trigger] (http_error_msg(*self) + t),
                _ => r@ == http_error_msg(*self),
            },
    {
        let mut m = String::new();
        match self {
            HttpError::RequestFailed(s) => {
                m.append("Request failed: ");
                m.append(s.as_str());
            },
            HttpError::InvalidUrl(s) => {
                m.append("Invalid URL: ");
                m.append(s.as_str());
            },
            HttpError::Timeout => {
                m.append("Connection timeout");
            },
            HttpError::NetworkError(s) => {
                m.append("Network error: ");
                m.append(s.as_str());
            },
            HttpError::IoError(e) => {
                m.append("IO error: ");
                let detail = e.to_string();
                m.append(detail.as_str());
                proof {
                    assert(m@ == http_error_msg(*self) + detail@);
                }
            },
            HttpError::TlsError(s) => {
                m.append("TLS error: ");
                m.append(s.as_str());
            },
            HttpError::TooManyRedirects => {
                m.append("Too many redirects");
            },
        }
        m
    }
}

impl From<std::io::Error> for HttpError {
    /// Wraps an I/O error as a transport fault.
    fn from(e: std::io::Error) -> (r: HttpError) {
        HttpError::IoError(e)
    }
}

impl vstd::std_specs::convert::FromSpecImpl<std::io::Error> for HttpError {
    open spec fn obeys_from_spec() -> bool {
        true
    }

    open spec fn from_spec(e: std::io::Error) -> HttpError {
        HttpError::IoError(e)
    }
}

/// Classifies a transport fault by its message text: timeout wording maps
/// to a timeout, certificate or TLS wording to a TLS fault, and anything
/// else to a plain network fault, the message carried along.
pub fn classify_transport_error(message: String) -> (r: HttpError)
    ensures
        if crate::text::contains_seq(message@, "timeout"@) || crate::text::contains_seq(
            message@,
            "timed out"@,
        ) {
            r == HttpError::Timeout
        } else if crate::text::contains_seq(message@, "certificate"@)
            || crate::text::contains_seq(message@, "tls"@) {
            r matches HttpError::TlsError(m) && m@ == message@
        } else {
            (r matches HttpError::NetworkError(m) && m@ == message@)
        },
{
    if crate::text::contains_str(message.as_str(), "timeout") || crate::text::contains_str(
        message.as_str(),
        "timed out",
    ) {
        HttpError::Timeout
    } else if crate::text::contains_str(message.as_str(), "certificate")
        || crate::text::contains_str(message.as_str(), "tls") {
        HttpError::TlsError(message)
    } else {
        HttpError::NetworkError(message)
    }
}

/// Configuration for the HTTP transport: timeouts, redirect policy, agent
/// naming and response size limits.
#[derive(Debug, Clone)]
pub struct HttpClientConfig {
    pub timeout_seconds: u64,
    pub follow_redirects: bool,
    pub max_redirects: usize,
    pub user_agent: Option<String>,
    pub accept_invalid_certs: bool,
    pub max_response_size: Option<usize>,
}

impl Default for HttpClientConfig {
    /// The stock configuration: a thirty-second timeout, up to ten
    /// redirects followed, the library's own agent name, strict
    /// certificates, and a hundred-mebibyte response cap.
    fn default() -> (r: HttpClientConfig)
        ensures
            r.timeout_seconds == 30u64,
            r.follow_redirects == true,
            r.max_redirects == 10usize,
            r.user_agent matches Some(ua) && ua@ == "Saffron/0.1.5"@,
            r.accept_invalid_certs == false,
            r.max_response_size == Some(104857600usize),
    {
        let mut ua = String::new();
        ua.append("Saffron/0.1.5");
        HttpClientConfig {
            timeout_seconds: 30,
            follow_redirects: true,
            max_redirects: 10,
            user_agent: Some(ua),
            accept_invalid_certs: false,
            max_response_size: Some(100 * 1024 * 1024),
        }
    }
}

} // verus!
