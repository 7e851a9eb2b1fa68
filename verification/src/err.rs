//! The two error taxonomies: fatal startup errors that abort `run`
//! before the accept loop, and per-connection stream errors that only
//! drop the one connection.

use vstd::prelude::*;
use vstd::string::{StringExecFns, StrSliceExecFns};

verus! {

/// A fatal startup error: the server never begins serving.
#[derive(Debug, PartialEq, Eq)]
pub enum AppErr {
    /// The certificate file is missing or corrupt.
    Cert(String),
    /// A generic startup failure with its message.
    G(String),
    /// Generating a certificate failed.
    RcGen(String),
    /// Writing the generated keypair failed.
    Save(String),
    /// Certificate generation was stopped.
    RcGenStop,
    /// No domain name was given for certificate generation.
    RcGenNoDomains,
    /// The private-key file is missing or corrupt.
    Key(String),
    /// Binding the listen address failed.
    Bind(String),
    /// Building the TLS context failed.
    SslStack(String),
    /// A TLS session error during setup.
    SslError(String),
    /// Reading the system clock failed.
    Time(String),
}

/// A per-connection stream error: the connection is dropped, the
/// listener keeps running.
#[derive(Debug, PartialEq, Eq)]
pub enum StreamErr {
    /// Reading the request failed.
    Read(String),
    /// Writing the response failed.
    Write(String),
    /// The request line is over-long or lacks its CRLF terminator.
    Malformed,
    /// The request bytes are not valid UTF-8.
    Utf8,
    /// The request line is not a well-formed absolute URL.
    UrlParse(String),
    /// The percent-decoded path is not valid UTF-8.
    UrlDecode,
    /// The TLS session failed.
    SslError(String),
}

impl AppErr {
    /// The human-readable description of this startup failure.
    pub fn message(&self) -> (r: String)
        ensures
            ({
                match self {
                    AppErr::Cert(m) => r@ == "./cert.pem is missing or corrupt: "@ + m@,
                    AppErr::G(m) => r@ == m@,
                    AppErr::RcGen(m) => r@ == "Error generating certificate: "@ + m@,
                    AppErr::Save(m) => r@ == "Failed to save: "@ + m@,
                    AppErr::RcGenStop => r@ == "Certificate generation stopped."@,
                    AppErr::RcGenNoDomains => r@ == "No domain names were given."@,
                    AppErr::Key(m) => r@ == "./key.pem is missing or corrupt: "@ + m@,
                    AppErr::Bind(m) => r@ == "Failed to bind address: "@ + m@,
                    AppErr::SslStack(m) => r@ == m@,
                    AppErr::SslError(m) => r@ == m@,
                    AppErr::Time(m) => r@ == m@,
                }
            }),
    {
        match self {
            AppErr::Cert(m) => String::from_str("./cert.pem is missing or corrupt: ").concat(
                m.as_str(),
            ),
            AppErr::G(m) => m.clone(),
            AppErr::RcGen(m) => String::from_str("Error generating certificate: ").concat(
                m.as_str(),
            ),
            AppErr::Save(m) => String::from_str("Failed to save: ").concat(m.as_str()),
            AppErr::RcGenStop => String::from_str("Certificate generation stopped."),
            AppErr::RcGenNoDomains => String::from_str("No domain names were given."),
            AppErr::Key(m) => String::from_str("./key.pem is missing or corrupt: ").concat(
                m.as_str(),
            ),
            AppErr::Bind(m) => String::from_str("Failed to bind address: ").concat(m.as_str()),
            AppErr::SslStack(m) => m.clone(),
            AppErr::SslError(m) => m.clone(),
            AppErr::Time(m) => m.clone(),
        }
    }
}

impl StreamErr {
    /// The human-readable description of this per-connection failure.
    pub fn message(&self) -> (r: String)
        ensures
            ({
                match self {
                    StreamErr::Read(m) => r@ == "Reading stream: "@ + m@,
                    StreamErr::Write(m) => r@ == "Writing stream: "@ + m@,
                    StreamErr::Malformed => r@ == "Malformed request line."@,
                    StreamErr::Utf8 => r@ == "Request is not valid utf-8."@,
                    StreamErr::UrlParse(m) => r@ == "Parsing url: "@ + m@,
                    StreamErr::UrlDecode => r@ == "Decoding url percents failed."@,
                    StreamErr::SslError(m) => r@ == m@,
                }
            }),
    {
        match self {
            StreamErr::Read(m) => String::from_str("Reading stream: ").concat(m.as_str()),
            StreamErr::Write(m) => String::from_str("Writing stream: ").concat(m.as_str()),
            StreamErr::Malformed => String::from_str("Malformed request line."),
            StreamErr::Utf8 => String::from_str("Request is not valid utf-8."),
            StreamErr::UrlParse(m) => String::from_str("Parsing url: ").concat(m.as_str()),
            StreamErr::UrlDecode => String::from_str("Decoding url percents failed."),
            StreamErr::SslError(m) => m.clone(),
        }
    }
}

} // verus!
