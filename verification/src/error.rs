//! The closed error taxonomy shared by every backend.
//!
//! Backend-native failures (operating-system errors, archive-format errors)
//! are wrapped losslessly and returned to the caller; no failure is
//! swallowed. Operations that are meaningless for a given backend report an
//! explicit unsupported-operation outcome instead of aborting.

use vstd::prelude::*;
use vstd::string::StringExecFns;

verus! {

/// `std::io::Error`, declared so that operating-system failures can be
/// carried losslessly inside [`FsError`]. The value is opaque to this crate.
#[verifier::external_type_specification]
#[verifier::external_body]
pub struct ExIoError(std::io::Error);

/// Every failure a filesystem operation can report.
#[derive(Debug)]
pub enum FsError {
    /// The object at this path is not a file.
    NotAFile(String),
    /// The object at this path is not a directory.
    NotADirectory(String),
    /// An operating-system call failed; the underlying error is kept whole.
    IoError(std::io::Error),
    /// The archive container crate failed; the underlying error is kept
    /// whole.
    ZipError(zip::result::ZipError),
    /// A directory (first field: its full path) has no child of this name
    /// (second field).
    FileNotPresent(String, String),
    /// The named file is not open, but the operation needs it to be.
    FileNotOpen(String),
    /// Any other failure, described in words. Also used for operations a
    /// backend does not support.
    Generic(String),
}

impl FsError {
    /// The rendering of this error as text, for every variant whose text is
    /// built by this crate. `IoError` renders through the underlying error's
    /// own formatting, which this spec leaves open.
    pub open spec fn message_spec(&self) -> Seq<char> {
        match self {
            FsError::NotAFile(path) => "Not a file: "@ + path@,
            FsError::NotADirectory(path) => "Not a directory: "@ + path@,
            FsError::IoError(_) => Seq::<char>::empty(),
            FsError::ZipError(_) => Seq::<char>::empty(),
            FsError::FileNotPresent(dir, name) => "["@ + dir@ + "] no file named '"@ + name@ + "'"@,
            FsError::FileNotOpen(name) => "file '"@ + name@ + "' is not open"@,
            FsError::Generic(msg) => msg@,
        }
    }

    /// Renders the error as one line of text.
    pub fn message(&self) -> (r: String)
        ensures
            !(self is IoError) && !(self is ZipError) ==> r@ == self.message_spec(),
    {
        match self {
            FsError::NotAFile(path) => String::from_str("Not a file: ").concat(path.as_str()),
            FsError::NotADirectory(path) => {
                String::from_str("Not a directory: ").concat(path.as_str())
            },
            FsError::IoError(e) => io_error_text(e),
            FsError::ZipError(e) => zip_error_text(e),
            FsError::FileNotPresent(dir, name) => {
                String::from_str("[")
                    .concat(dir.as_str())
                    .concat("] no file named '")
                    .concat(name.as_str())
                    .concat("'")
            },
            FsError::FileNotOpen(name) => {
                String::from_str("file '").concat(name.as_str()).concat("' is not open")
            },
            FsError::Generic(msg) => String::from_str(msg.as_str()),
        }
    }
}

/// Relies on the `std::fmt::Display` impl of `std::io::Error` for the text of
/// an operating-system failure; nothing is assumed of that text.
#[verifier::external_body]
fn io_error_text(e: &std::io::Error) -> String {
    format!("{e}")
}

/// Relies on the `std::fmt::Display` impl of `zip::result::ZipError` for the
/// text of an archive failure; nothing is assumed of that text.
#[verifier::external_body]
fn zip_error_text(e: &zip::result::ZipError) -> String {
    format!("{e}")
}

impl From<zip::result::ZipError> for FsError {
    fn from(e: zip::result::ZipError) -> (r: FsError) {
        FsError::ZipError(e)
    }
}

impl vstd::std_specs::convert::FromSpecImpl<zip::result::ZipError> for FsError {
    open spec fn obeys_from_spec() -> bool {
        true
    }

    open spec fn from_spec(e: zip::result::ZipError) -> FsError {
        FsError::ZipError(e)
    }
}

impl From<std::io::Error> for FsError {
    fn from(e: std::io::Error) -> (r: FsError) {
        FsError::IoError(e)
    }
}

impl vstd::std_specs::convert::FromSpecImpl<std::io::Error> for FsError {
    open spec fn obeys_from_spec() -> bool {
        true
    }

    open spec fn from_spec(e: std::io::Error) -> FsError {
        FsError::IoError(e)
    }
}

impl From<String> for FsError {
    fn from(msg: String) -> (r: FsError) {
        FsError::Generic(msg)
    }
}

impl vstd::std_specs::convert::FromSpecImpl<String> for FsError {
    open spec fn obeys_from_spec() -> bool {
        true
    }

    open spec fn from_spec(msg: String) -> FsError {
        FsError::Generic(msg)
    }
}

} // verus!
