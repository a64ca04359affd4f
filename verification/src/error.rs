//! The failures that the library reports, and how each reads.

use vstd::prelude::*;
use vstd::string::*;

use crate::text::{pair, wrap};

verus! {

/// A failure of a VM or image operation.
#[derive(Debug)]
pub enum Error {
    /// A file or directory operation failed.
    Io(String),
    /// A VM of that name is already there.
    VmAlreadyExists(String),
    /// No VM of that name is there.
    VmNotFound(String),
    /// The VM was to be started and runs already.
    VmAlreadyRunning(String),
    /// The VM was to be stopped and does not run.
    VmNotRunning(String),
    /// A download failed: the URL, then the reason.
    DownloadFailed(String, String),
    /// An external command could not be run or ended in failure.
    CommandFailed(String),
    /// The VM's directory records no subnet.
    NetworkConfigMissing(String),
    /// The user's home directory is unknown.
    HomeDirNotFound,
    /// A JSON document could not be read or written.
    JsonParseFailed(String),
    /// A required external tool is missing.
    DependencyNotFound(String),
    /// An HTTP request failed.
    Http(String),
    /// An image reference is malformed.
    InvalidImageName(String),
    /// No image of that reference is held locally.
    ImageNotFound(String),
    /// No free subnet or TAP name was found within the allowed attempts.
    AllocationExhausted(String),
    /// A set of chunks does not make up the file it claims to.
    Corrupt(String),
    /// A push to or pull from a registry failed.
    TransportFailed(String),
    /// Any other failure, with its description.
    Other(String),
}

/// The library's result type.
pub type Result<T> = core::result::Result<T, Error>;

/// The text that describes `e`.
pub open spec fn message_of(e: Error) -> Seq<char> {
    match e {
        Error::Io(m) => "IO error: "@ + m@,
        Error::VmAlreadyExists(n) => "VM "@ + n@ + " already exists"@,
        Error::VmNotFound(n) => "VM "@ + n@ + " does not exist"@,
        Error::VmAlreadyRunning(n) => "VM "@ + n@ + " is already running"@,
        Error::VmNotRunning(n) => "VM "@ + n@ + " is not running"@,
        Error::DownloadFailed(u, m) => "Failed to download "@ + u@ + ": "@ + m@,
        Error::CommandFailed(m) => "Failed to execute command: "@ + m@,
        Error::NetworkConfigMissing(n) => "Network configuration for VM "@ + n@ + " is missing"@,
        Error::HomeDirNotFound => "Home directory not found"@,
        Error::JsonParseFailed(m) => "Failed to parse JSON: "@ + m@,
        Error::DependencyNotFound(p) => "Required dependency "@ + p@ + " not found"@,
        Error::Http(m) => "HTTP error: "@ + m@,
        Error::InvalidImageName(n) => "Invalid image name: "@ + n@,
        Error::ImageNotFound(m) => "Image not found: "@ + m@,
        Error::AllocationExhausted(m) => m@,
        Error::Corrupt(m) => m@,
        Error::TransportFailed(m) => m@,
        Error::Other(m) => m@,
    }
}

impl Error {
    /// The text that describes this failure.
    pub fn message(&self) -> (r: String)
        ensures
            r@ == message_of(*self),
    {
        match self {
            Error::Io(m) => pair("IO error: ", m.as_str()),
            Error::VmAlreadyExists(n) => wrap("VM ", n.as_str(), " already exists"),
            Error::VmNotFound(n) => wrap("VM ", n.as_str(), " does not exist"),
            Error::VmAlreadyRunning(n) => wrap("VM ", n.as_str(), " is already running"),
            Error::VmNotRunning(n) => wrap("VM ", n.as_str(), " is not running"),
            Error::DownloadFailed(u, m) => {
                let mut r = wrap("Failed to download ", u.as_str(), ": ");
                r.append(m.as_str());
                r
            },
            Error::CommandFailed(m) => pair("Failed to execute command: ", m.as_str()),
            Error::NetworkConfigMissing(n) => wrap(
                "Network configuration for VM ",
                n.as_str(),
                " is missing",
            ),
            Error::HomeDirNotFound => String::from_str("Home directory not found"),
            Error::JsonParseFailed(m) => pair("Failed to parse JSON: ", m.as_str()),
            Error::DependencyNotFound(p) => wrap("Required dependency ", p.as_str(), " not found"),
            Error::Http(m) => pair("HTTP error: ", m.as_str()),
            Error::InvalidImageName(n) => pair("Invalid image name: ", n.as_str()),
            Error::ImageNotFound(m) => pair("Image not found: ", m.as_str()),
            Error::AllocationExhausted(m) => m.clone(),
            Error::Corrupt(m) => m.clone(),
            Error::TransportFailed(m) => m.clone(),
            Error::Other(m) => m.clone(),
        }
    }
}

} // verus!
