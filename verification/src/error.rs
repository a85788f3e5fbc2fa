//! Error type for sortcrab operations.

use vstd::prelude::*;
use vstd::string::*;

verus! {

/// `std::io::Error`, carried opaquely.
#[verifier::external_type_specification]
#[verifier::external_body]
pub struct ExIoError(std::io::Error);

/// `toml::de::Error`, carried opaquely.
#[verifier::external_type_specification]
#[verifier::external_body]
pub struct ExTomlDeError(toml::de::Error);

/// `std::path::PathBuf`, carried opaquely.
#[verifier::external_type_specification]
#[verifier::external_body]
pub struct ExPathBuf(std::path::PathBuf);

/// Unified error type for sortcrab operations.
#[derive(Debug)]
pub enum SortcrabError {
    /// A filesystem read or write failed.
    Io(std::io::Error),
    /// The configuration file is not valid TOML for the configuration.
    TomlParse(toml::de::Error),
    /// A configuration-related error with a descriptive message.
    Config(String),
    /// The supplied path is not valid for the requested operation.
    InvalidPath(std::path::PathBuf),
    /// The period label could not be computed.
    Semester(String),
    /// The file's extension is not mapped in the rules table.
    UnknownExtension(String),
    /// The file was deliberately skipped (dotfile, symlink, already organised).
    Skipped(String),
    /// Any other error, with its message.
    Other(String),
}

/// `Display` of an `std::io::Error`. Nothing is stated of the text: it comes
/// from the operating system.
#[verifier::external_body]
fn io_error_text(e: &std::io::Error) -> String {
    format!("{}", e)
}

/// `Display` of a `toml::de::Error`. Nothing is stated of the text, which the
/// toml crate composes from the position and kind of the error.
#[verifier::external_body]
fn toml_error_text(e: &toml::de::Error) -> String {
    format!("{}", e)
}

/// `PathBuf::display`. Nothing is stated of the text: the path is opaque here.
#[verifier::external_body]
fn path_display_text(p: &std::path::PathBuf) -> String {
    format!("{}", p.display())
}

/// The prefix and the payload a message of the error is made of, for the
/// variants whose payload is text.
pub open spec fn message_parts(e: &SortcrabError) -> Option<(Seq<char>, Seq<char>)> {
    match e {
        SortcrabError::Config(m) => Some(("Config error: "@, m@)),
        SortcrabError::Semester(m) => Some(("Semester error: "@, m@)),
        SortcrabError::UnknownExtension(m) => Some(("Unknown extension: "@, m@)),
        SortcrabError::Skipped(m) => Some(("Skipped: "@, m@)),
        SortcrabError::Other(m) => Some((Seq::<char>::empty(), m@)),
        _ => None,
    }
}

/// The text prefix for the variants whose payload is opaque.
pub open spec fn opaque_prefix(e: &SortcrabError) -> Seq<char> {
    match e {
        SortcrabError::Io(_) => "I/O error: "@,
        SortcrabError::TomlParse(_) => "TOML parse error: "@,
        _ => "Invalid path: "@,
    }
}

impl SortcrabError {
    /// The human-readable message of the error.
    pub fn message(&self) -> (r: String)
        ensures
            message_parts(self) matches Some((p, m)) ==> r@ == p + m,
            message_parts(self) is None ==> opaque_prefix(self).is_prefix_of(r@),
    {
        let mut out = String::new();
        match self {
            SortcrabError::Io(e) => {
                out.append("I/O error: ");
                out.append(io_error_text(e).as_str());
            },
            SortcrabError::TomlParse(e) => {
                out.append("TOML parse error: ");
                out.append(toml_error_text(e).as_str());
            },
            SortcrabError::Config(m) => {
                out.append("Config error: ");
                out.append(m.as_str());
            },
            SortcrabError::InvalidPath(p) => {
                out.append("Invalid path: ");
                out.append(path_display_text(p).as_str());
            },
            SortcrabError::Semester(m) => {
                out.append("Semester error: ");
                out.append(m.as_str());
            },
            SortcrabError::UnknownExtension(m) => {
                out.append("Unknown extension: ");
                out.append(m.as_str());
            },
            SortcrabError::Skipped(m) => {
                out.append("Skipped: ");
                out.append(m.as_str());
            },
            SortcrabError::Other(m) => {
                out.append(m.as_str());
            },
        }
        assert(Seq::<char>::empty() + out@ == out@);
        out
    }

    /// Whether this is the `Skipped` variant.
    pub fn is_skipped(&self) -> (r: bool)
        ensures
            r == (self is Skipped),
    {
        match self {
            SortcrabError::Skipped(_) => true,
            _ => false,
        }
    }
}

impl From<&str> for SortcrabError {
    fn from(s: &str) -> (r: SortcrabError)
        ensures
            r matches SortcrabError::Other(m) && m@ == s@,
    {
        SortcrabError::Other(String::from_str(s))
    }
}

impl vstd::std_specs::convert::FromSpecImpl<&str> for SortcrabError {
    open spec fn obeys_from_spec() -> bool {
        false
    }

    open spec fn from_spec(v: &str) -> SortcrabError {
        SortcrabError::Other(arbitrary())
    }
}

impl From<String> for SortcrabError {
    fn from(s: String) -> (r: SortcrabError) {
        SortcrabError::Other(s)
    }
}

impl vstd::std_specs::convert::FromSpecImpl<String> for SortcrabError {
    open spec fn obeys_from_spec() -> bool {
        true
    }

    open spec fn from_spec(v: String) -> SortcrabError {
        SortcrabError::Other(v)
    }
}

impl From<std::io::Error> for SortcrabError {
    fn from(e: std::io::Error) -> (r: SortcrabError) {
        SortcrabError::Io(e)
    }
}

impl vstd::std_specs::convert::FromSpecImpl<std::io::Error> for SortcrabError {
    open spec fn obeys_from_spec() -> bool {
        true
    }

    open spec fn from_spec(v: std::io::Error) -> SortcrabError {
        SortcrabError::Io(v)
    }
}

impl From<toml::de::Error> for SortcrabError {
    fn from(e: toml::de::Error) -> (r: SortcrabError) {
        SortcrabError::TomlParse(e)
    }
}

impl vstd::std_specs::convert::FromSpecImpl<toml::de::Error> for SortcrabError {
    open spec fn obeys_from_spec() -> bool {
        true
    }

    open spec fn from_spec(v: toml::de::Error) -> SortcrabError {
        SortcrabError::TomlParse(v)
    }
}

} // verus!
