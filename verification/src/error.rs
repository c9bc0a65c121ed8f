use vstd::prelude::*;
use vstd::string::to_string_from_display_ensures;

use rustfm_scrobble::ScrobblerError;

use crate::text::owned;

verus! {

#[verifier::external_type_specification]
#[verifier::external_body]
pub struct ExKeyringError(keyring::Error);

#[verifier::external_type_specification]
#[verifier::external_body]
pub struct ExScrobblerError(ScrobblerError);

#[verifier::external_type_specification]
#[verifier::external_body]
pub struct ExIoError(std::io::Error);

/// Why a scrobbling session could not be set up.
#[derive(Debug)]
pub enum ScrobbleManagerError {
    /// A configuration key that the session needs is absent.
    MissingCredential(&'static str),
    /// The password could not be read from the keychain.
    KeyringError(keyring::Error),
    /// Last.fm refused the authentication.
    ScrobblerError(ScrobblerError),
}

/// Why the configuration could not be read.
#[derive(Debug)]
pub enum ParserError {
    /// The home directory is not known.
    MissingHomeDirectory,
    /// The configuration file could not be read.
    IoError(std::io::Error),
    /// A line that is neither blank, a comment nor `key=value`.
    MalformedLine(String),
}

/// Whether `text` is `prefix` followed by the text that the `Display` of
/// `e` writes.
pub open spec fn shows_with_prefix<T: std::fmt::Display>(text: Seq<char>, prefix: Seq<char>, e: &T) -> bool {
    exists|shown: String| #[trigger] to_string_from_display_ensures::<T>(e, shown) && text == prefix + shown@
}

impl ScrobbleManagerError {
    /// The message shown to the user.
    pub fn message(&self) -> (res: String)
        ensures
            match self {
                ScrobbleManagerError::MissingCredential(key) => res@ == key@
                    + " is not set. Check config.env file."@,
                ScrobbleManagerError::KeyringError(e) => shows_with_prefix(
                    res@,
                    "Can't read password from keychain: "@,
                    e,
                ),
                ScrobbleManagerError::ScrobblerError(e) => shows_with_prefix(
                    res@,
                    "Can't authorize on Last.fm: "@,
                    e,
                ),
            },
    {
        match self {
            ScrobbleManagerError::MissingCredential(key) => {
                owned(key).concat(" is not set. Check config.env file.")
            },
            ScrobbleManagerError::KeyringError(e) => {
                let shown = e.to_string();
                owned("Can't read password from keychain: ").concat(shown.as_str())
            },
            ScrobbleManagerError::ScrobblerError(e) => {
                let shown = e.to_string();
                owned("Can't authorize on Last.fm: ").concat(shown.as_str())
            },
        }
    }
}

impl From<keyring::Error> for ScrobbleManagerError {
    fn from(e: keyring::Error) -> (res: ScrobbleManagerError) {
        ScrobbleManagerError::KeyringError(e)
    }
}

impl vstd::std_specs::convert::FromSpecImpl<keyring::Error> for ScrobbleManagerError {
    open spec fn obeys_from_spec() -> bool {
        true
    }

    open spec fn from_spec(v: keyring::Error) -> ScrobbleManagerError {
        ScrobbleManagerError::KeyringError(v)
    }
}

impl ParserError {
    /// The message shown to the user.
    pub fn message(&self) -> (res: String)
        ensures
            match self {
                ParserError::MissingHomeDirectory => res@ == "[e] Error: Could not havigate home dir."@,
                ParserError::IoError(e) => shows_with_prefix(
                    res@,
                    "[e] Error: Could not load config.env file. "@,
                    e,
                ),
                ParserError::MalformedLine(line) => res@ == "[e] Error: Malformed line in config.env file. "@
                    + line@,
            },
    {
        match self {
            ParserError::MissingHomeDirectory => owned("[e] Error: Could not havigate home dir."),
            ParserError::IoError(e) => {
                let shown = e.to_string();
                owned("[e] Error: Could not load config.env file. ").concat(shown.as_str())
            },
            ParserError::MalformedLine(line) => {
                owned("[e] Error: Malformed line in config.env file. ").concat(line.as_str())
            },
        }
    }
}

impl From<std::io::Error> for ParserError {
    fn from(e: std::io::Error) -> (res: ParserError) {
        ParserError::IoError(e)
    }
}

impl vstd::std_specs::convert::FromSpecImpl<std::io::Error> for ParserError {
    open spec fn obeys_from_spec() -> bool {
        true
    }

    open spec fn from_spec(v: std::io::Error) -> ParserError {
        ParserError::IoError(v)
    }
}

} // verus!
