//! What the keybox commands refuse, and the words they refuse it with.
use crate::error::{EngineError, Refusal};
use crate::keybox::generate::GenerateError;
use crate::text::both;
use vstd::prelude::*;

verus! {

/// Why a keybox command fails. `S` is the text that an error carries.
#[derive(Debug, PartialEq, Eq)]
pub enum KeyboxFailure<S> {
    /// The engine tells no keybox file.
    Engine { refusal: Refusal<S> },
    /// No keybox could be generated.
    Generate { failure: GenerateError },
    /// There is no keybox source of this name.
    UnknownSource { name: S },
    /// There is no keybox to back up.
    NothingToBackUp { path: S },
    /// The custom keybox is not there.
    CustomMissing { path: S },
    /// The custom keybox is no keybox document.
    CustomUnparsable { path: S },
    /// The custom keybox is not valid.
    CustomRejected { summary: S },
    /// The keybox that was looked at is not valid.
    ValidationFailed { path: S },
    /// No source gave a valid keybox, and none is installed.
    SourcesFailed,
}

/// Why a keybox command fails.
pub type KeyboxError = KeyboxFailure<String>;

impl View for KeyboxFailure<String> {
    type V = KeyboxFailure<Seq<char>>;

    open spec fn view(&self) -> KeyboxFailure<Seq<char>> {
        match *self {
            KeyboxFailure::Engine { refusal } => KeyboxFailure::Engine { refusal: refusal@ },
            KeyboxFailure::Generate { failure } => KeyboxFailure::Generate { failure },
            KeyboxFailure::UnknownSource { name } => KeyboxFailure::UnknownSource { name: name@ },
            KeyboxFailure::NothingToBackUp { path } => KeyboxFailure::NothingToBackUp {
                path: path@,
            },
            KeyboxFailure::CustomMissing { path } => KeyboxFailure::CustomMissing { path: path@ },
            KeyboxFailure::CustomUnparsable { path } => KeyboxFailure::CustomUnparsable {
                path: path@,
            },
            KeyboxFailure::CustomRejected { summary } => KeyboxFailure::CustomRejected {
                summary: summary@,
            },
            KeyboxFailure::ValidationFailed { path } => KeyboxFailure::ValidationFailed {
                path: path@,
            },
            KeyboxFailure::SourcesFailed => KeyboxFailure::SourcesFailed,
        }
    }
}

impl KeyboxFailure<Seq<char>> {
    /// The words of the failure.
    pub open spec fn words(self) -> Seq<char> {
        match self {
            KeyboxFailure::Engine { refusal } => refusal.words(),
            KeyboxFailure::Generate { failure } => failure.words(),
            KeyboxFailure::UnknownSource { name } => "unknown keybox source: "@ + name,
            KeyboxFailure::NothingToBackUp { path } => "no keybox to backup at "@ + path,
            KeyboxFailure::CustomMissing { path } => "custom keybox not found: "@ + path,
            KeyboxFailure::CustomUnparsable { path } => "validating "@ + path,
            KeyboxFailure::CustomRejected { summary } => "custom keybox failed validation: "@
                + summary,
            KeyboxFailure::ValidationFailed { path } => "keybox validation failed: "@ + path,
            KeyboxFailure::SourcesFailed => "all keybox sources failed"@,
        }
    }
}

impl KeyboxFailure<String> {
    /// The words of the failure.
    pub fn message(&self) -> (r: String)
        ensures
            r@ == self@.words(),
    {
        match self {
            KeyboxFailure::Engine { refusal } => refusal.message(),
            KeyboxFailure::Generate { failure } => failure.message(),
            KeyboxFailure::UnknownSource { name } => both(
                "unknown keybox source: ",
                name.as_str(),
            ),
            KeyboxFailure::NothingToBackUp { path } => both(
                "no keybox to backup at ",
                path.as_str(),
            ),
            KeyboxFailure::CustomMissing { path } => both(
                "custom keybox not found: ",
                path.as_str(),
            ),
            KeyboxFailure::CustomUnparsable { path } => both("validating ", path.as_str()),
            KeyboxFailure::CustomRejected { summary } => both(
                "custom keybox failed validation: ",
                summary.as_str(),
            ),
            KeyboxFailure::ValidationFailed { path } => both(
                "keybox validation failed: ",
                path.as_str(),
            ),
            KeyboxFailure::SourcesFailed => "all keybox sources failed".to_owned(),
        }
    }
}

/// The failure of a command that needs the keybox file.
pub fn no_file(refusal: EngineError) -> (r: KeyboxError)
    ensures
        r@ == (KeyboxFailure::Engine { refusal: refusal@ }),
{
    KeyboxFailure::Engine { refusal }
}

} // verus!
