//! The ways in which an evaluation can fail.

use vstd::prelude::*;
use vstd::string::*;
use crate::text::{join, join_names, name_list};

verus! {

/// Why the name of this machine could not be had.
#[derive(Debug, Clone, Copy, PartialEq, Eq, Structural)]
pub enum HostLookupFailure {
    /// The system did not give a host name.
    Unavailable,
    /// The host name is not valid text.
    NotText,
}

#[derive(Debug, Clone)]
pub enum Error {
    /// No gatekeeper of this name can be resolved; `tried` holds where it
    /// was looked for.
    NotFound { name: String, tried: Vec<String> },
    /// A script or a document is malformed.
    ParseError { message: String },
    /// `name` was required while it was being evaluated; `chain` holds the
    /// names that were being evaluated then, outermost first.
    CircularDependency { name: String, chain: Vec<String> },
    /// `name` is none of the operating system identifiers.
    UnknownOsIdentifier { name: String },
    HostLookup { failure: HostLookupFailure },
    /// Reading or writing a file failed.
    IoError { message: String },
}

/// An error as a mathematical value.
pub enum ErrorView {
    NotFound { name: Seq<char>, tried: Seq<Seq<char>> },
    ParseError { message: Seq<char> },
    CircularDependency { name: Seq<char>, chain: Seq<Seq<char>> },
    UnknownOsIdentifier { name: Seq<char> },
    HostLookup { failure: HostLookupFailure },
    IoError { message: Seq<char> },
}

impl View for Error {
    type V = ErrorView;

    open spec fn view(&self) -> ErrorView {
        match self {
            Error::NotFound { name, tried } => ErrorView::NotFound {
                name: name@,
                tried: name_list(tried@),
            },
            Error::ParseError { message } => ErrorView::ParseError { message: message@ },
            Error::CircularDependency { name, chain } => ErrorView::CircularDependency {
                name: name@,
                chain: name_list(chain@),
            },
            Error::UnknownOsIdentifier { name } => ErrorView::UnknownOsIdentifier { name: name@ },
            Error::HostLookup { failure } => ErrorView::HostLookup { failure: *failure },
            Error::IoError { message } => ErrorView::IoError { message: message@ },
        }
    }
}

/// The places where something was looked for, as they are told: nothing
/// where there are none.
pub open spec fn tried_text(tried: Seq<Seq<char>>) -> Seq<char> {
    if tried.len() == 0 {
        Seq::empty()
    } else {
        " (tried: "@ + join(tried, ", "@) + ")"@
    }
}

/// What is told of a gatekeeper that was not found: its name, and the
/// places where it was looked for.
pub open spec fn not_found_text(name: Seq<char>, tried: Seq<Seq<char>>) -> Seq<char> {
    "Gatekeeper '"@ + name + "' not found"@ + tried_text(tried)
}

/// What is told of the gatekeeper `name` that was not found in `tried`.
pub fn not_found_message(name: &str, tried: &Vec<String>) -> (text: String)
    ensures
        text@ == not_found_text(name@, name_list(tried@)),
{
    let mut text = String::from_str("Gatekeeper '");
    text.append(name);
    text.append("' not found");
    let ghost head = text@;
    if tried.len() > 0 {
        text.append(" (tried: ");
        text.append(join_names(tried, ", ").as_str());
        text.append(")");
    } else {
        assert(text@ =~= head + Seq::<char>::empty());
    }
    text
}

/// The text that describes an error.
pub open spec fn message_text(e: ErrorView) -> Seq<char> {
    match e {
        ErrorView::NotFound { name, tried } => not_found_text(name, tried),
        ErrorView::ParseError { message } => message,
        ErrorView::CircularDependency { name, chain } =>
            "Circular dependency detected: gatekeeper '"@ + name
            + "' references itself\nCall chain: "@ + join(chain, " → "@) + " → "@ + name,
        ErrorView::UnknownOsIdentifier { name } => "Unknown OS '"@ + name
            + "'. Valid options: linux, macos, windows, unix"@,
        ErrorView::HostLookup { failure } => match failure {
            HostLookupFailure::Unavailable => "Failed to get hostname"@,
            HostLookupFailure::NotText => "Failed to convert hostname to string"@,
        },
        ErrorView::IoError { message } => message,
    }
}

/// A list of the same names.
pub fn same_names(names: &Vec<String>) -> (copy: Vec<String>)
    ensures
        name_list(copy@) == name_list(names@),
{
    let copy = names.clone();
    assert(name_list(copy@) =~= name_list(names@)) by {
        assert(copy@.len() == names@.len());
        assert forall|i: int| 0 <= i < copy@.len() implies #[trigger] copy@[i]@ == names@[i]@ by {
            assert(cloned(names@[i], copy@[i]));
        }
    }
    copy
}

impl Error {
    /// The failure of `name` that was looked for in one place only, which
    /// its name tells.
    pub fn not_found(name: &str) -> (e: Error)
        ensures
            e@ == (ErrorView::NotFound { name: name@, tried: Seq::empty() }),
    {
        let tried: Vec<String> = Vec::new();
        assert(name_list(tried@) =~= Seq::<Seq<char>>::empty());
        Error::NotFound { name: name.to_string(), tried }
    }

    /// An error of its own that says the same.
    pub fn duplicate(&self) -> (copy: Error)
        ensures
            copy@ == self@,
    {
        match self {
            Error::NotFound { name, tried } => Error::NotFound {
                name: name.clone(),
                tried: same_names(tried),
            },
            Error::ParseError { message } => Error::ParseError { message: message.clone() },
            Error::CircularDependency { name, chain } => Error::CircularDependency {
                name: name.clone(),
                chain: same_names(chain),
            },
            Error::UnknownOsIdentifier { name } => Error::UnknownOsIdentifier {
                name: name.clone(),
            },
            Error::HostLookup { failure } => Error::HostLookup { failure: *failure },
            Error::IoError { message } => Error::IoError { message: message.clone() },
        }
    }

    /// The text that describes this error.
    pub fn message(&self) -> (text: String)
        ensures
            text@ == message_text(self@),
    {
        match self {
            Error::NotFound { name, tried } => not_found_message(name.as_str(), tried),
            Error::ParseError { message } => message.clone(),
            Error::CircularDependency { name, chain } => {
                let mut text = String::from_str("Circular dependency detected: gatekeeper '");
                text.append(name.as_str());
                text.append("' references itself\nCall chain: ");
                let joined = join_names(chain, " → ");
                text.append(joined.as_str());
                text.append(" → ");
                text.append(name.as_str());
                text
            },
            Error::UnknownOsIdentifier { name } => {
                let mut text = String::from_str("Unknown OS '");
                text.append(name.as_str());
                text.append("'. Valid options: linux, macos, windows, unix");
                text
            },
            Error::HostLookup { failure } => match failure {
                HostLookupFailure::Unavailable => String::from_str("Failed to get hostname"),
                HostLookupFailure::NotText => String::from_str(
                    "Failed to convert hostname to string",
                ),
            },
            Error::IoError { message } => message.clone(),
        }
    }
}

} // verus!
