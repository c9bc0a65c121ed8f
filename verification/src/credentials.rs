use vstd::prelude::*;

use rustfm_scrobble::Scrobbler;

use crate::config::Config;
use crate::error::ScrobbleManagerError;

verus! {

/// What a Last.fm session needs from the configuration.
pub struct Credentials {
    api_key: String,
    api_secret: String,
    username: String,
}

/// The value of `Credentials`.
pub struct CredentialsView {
    pub api_key: Seq<char>,
    pub api_secret: Seq<char>,
    pub username: Seq<char>,
}

impl View for Credentials {
    type V = CredentialsView;

    closed spec fn view(&self) -> CredentialsView {
        CredentialsView {
            api_key: self.api_key@,
            api_secret: self.api_secret@,
            username: self.username@,
        }
    }
}

/// The first of the three keys, in the order API key, API secret, user
/// name, that the settings lack.
pub open spec fn missing_credential(m: Map<Seq<char>, Seq<char>>) -> Option<Seq<char>> {
    if !m.contains_key("LASTFM_API_KEY"@) {
        Some("LASTFM_API_KEY"@)
    } else if !m.contains_key("LASTFM_API_SECRET"@) {
        Some("LASTFM_API_SECRET"@)
    } else if !m.contains_key("LASTFM_USERNAME"@) {
        Some("LASTFM_USERNAME"@)
    } else {
        None
    }
}

/// What `from_config` gives for settings `m`: the three values, or the
/// first key missing.
pub open spec fn credentials_outcome(m: Map<Seq<char>, Seq<char>>) -> Result<CredentialsView, Seq<char>> {
    match missing_credential(m) {
        Some(k) => Err(k),
        None => Ok(
            CredentialsView {
                api_key: m["LASTFM_API_KEY"@],
                api_secret: m["LASTFM_API_SECRET"@],
                username: m["LASTFM_USERNAME"@],
            },
        ),
    }
}

/// `m1` and `m2` agree on key `k`: both lack it, or both hold the same
/// value.
pub open spec fn agree_on(m1: Map<Seq<char>, Seq<char>>, m2: Map<Seq<char>, Seq<char>>, k: Seq<char>) -> bool {
    &&& m1.contains_key(k) == m2.contains_key(k)
    &&& m1.contains_key(k) ==> m1[k] == m2[k]
}

/// The credentials depend on the three Last.fm keys alone: settings that
/// agree on them give the same credentials or the same missing key, whatever
/// else they hold.
pub proof fn law_credentials_depend_on_their_keys(m1: Map<Seq<char>, Seq<char>>, m2: Map<Seq<char>, Seq<char>>)
    requires
        agree_on(m1, m2, "LASTFM_API_KEY"@),
        agree_on(m1, m2, "LASTFM_API_SECRET"@),
        agree_on(m1, m2, "LASTFM_USERNAME"@),
    ensures
        credentials_outcome(m1) == credentials_outcome(m2),
{
}

/// Each credential is the value of its own key: with all three keys set,
/// the API key is the value of `LASTFM_API_KEY`, the secret that of
/// `LASTFM_API_SECRET` and the user name that of `LASTFM_USERNAME`; with
/// one missing, the error names the first missing key in that order.
pub proof fn law_credentials_are_their_keys(m: Map<Seq<char>, Seq<char>>)
    ensures
        m.contains_key("LASTFM_API_KEY"@) && m.contains_key("LASTFM_API_SECRET"@) && m.contains_key(
            "LASTFM_USERNAME"@,
        ) ==> (credentials_outcome(m) matches Ok(v) && v.api_key == m["LASTFM_API_KEY"@] && v.api_secret
            == m["LASTFM_API_SECRET"@] && v.username == m["LASTFM_USERNAME"@]),
        !m.contains_key("LASTFM_API_KEY"@) ==> credentials_outcome(m) == Err::<CredentialsView, Seq<char>>(
            "LASTFM_API_KEY"@,
        ),
        m.contains_key("LASTFM_API_KEY"@) && !m.contains_key("LASTFM_API_SECRET"@) ==> credentials_outcome(m)
            == Err::<CredentialsView, Seq<char>>("LASTFM_API_SECRET"@),
        m.contains_key("LASTFM_API_KEY"@) && m.contains_key("LASTFM_API_SECRET"@) && !m.contains_key(
            "LASTFM_USERNAME"@,
        ) ==> credentials_outcome(m) == Err::<CredentialsView, Seq<char>>("LASTFM_USERNAME"@),
{
}

#[verifier::external_type_specification]
#[verifier::external_body]
pub struct ExScrobbler(Scrobbler);

/// The API key and API secret that a Last.fm client holds (the credentials
/// of its inner `LastFm` client, which `Scrobbler::new` copies from its
/// arguments).
pub uninterp spec fn client_keys(client: Scrobbler) -> (Seq<char>, Seq<char>);

/// Calls `rustfm_scrobble::Scrobbler::new(api_key, api_secret)`, which sets
/// up an unauthenticated client holding copies of the key and the secret
/// (`Credentials::new_partial`) and its own HTTP agent; no request is sent.
/// Nothing else is claimed of the client: the agent's connection pool is
/// freshly allocated with a random hasher, so the client as a whole is no
/// function of the two texts.
#[verifier::external_body]
fn new_scrobbler(api_key: &str, api_secret: &str) -> (res: Scrobbler)
    ensures
        client_keys(res) == (api_key@, api_secret@),
{
    Scrobbler::new(api_key, api_secret)
}

impl Credentials {
    /// Takes the API key, API secret and user name from the settings; the
    /// first one missing is the error.
    pub fn from_config(config: &Config) -> (res: Result<Credentials, ScrobbleManagerError>)
        ensures
            match credentials_outcome(config@) {
                Ok(v) => res matches Ok(c) && c@ == v,
                Err(k) => res matches Err(ScrobbleManagerError::MissingCredential(key)) && key@ == k,
            },
            config@.contains_key("LASTFM_API_KEY"@) && config@.contains_key("LASTFM_API_SECRET"@)
                && config@.contains_key("LASTFM_USERNAME"@) ==> (res matches Ok(c) && c@.api_key
                == config@["LASTFM_API_KEY"@] && c@.api_secret == config@["LASTFM_API_SECRET"@]
                && c@.username == config@["LASTFM_USERNAME"@]),
            !config@.contains_key("LASTFM_API_KEY"@) ==> (res matches Err(
                ScrobbleManagerError::MissingCredential(key),
            ) && key@ == "LASTFM_API_KEY"@),
            config@.contains_key("LASTFM_API_KEY"@) && !config@.contains_key("LASTFM_API_SECRET"@)
                ==> (res matches Err(ScrobbleManagerError::MissingCredential(key)) && key@
                == "LASTFM_API_SECRET"@),
            config@.contains_key("LASTFM_API_KEY"@) && config@.contains_key("LASTFM_API_SECRET"@)
                && !config@.contains_key("LASTFM_USERNAME"@) ==> (res matches Err(
                ScrobbleManagerError::MissingCredential(key),
            ) && key@ == "LASTFM_USERNAME"@),
    {
        let api_key = match config.get("LASTFM_API_KEY") {
            Some(v) => v.clone(),
            None => {
                return Err(ScrobbleManagerError::MissingCredential("LASTFM_API_KEY"));
            },
        };
        let api_secret = match config.get("LASTFM_API_SECRET") {
            Some(v) => v.clone(),
            None => {
                return Err(ScrobbleManagerError::MissingCredential("LASTFM_API_SECRET"));
            },
        };
        let username = match config.get("LASTFM_USERNAME") {
            Some(v) => v.clone(),
            None => {
                return Err(ScrobbleManagerError::MissingCredential("LASTFM_USERNAME"));
            },
        };
        Ok(Credentials { api_key, api_secret, username })
    }

    pub fn api_key(&self) -> (res: &str)
        ensures
            res@ == self@.api_key,
    {
        self.api_key.as_str()
    }

    pub fn api_secret(&self) -> (res: &str)
        ensures
            res@ == self@.api_secret,
    {
        self.api_secret.as_str()
    }

    pub fn username(&self) -> (res: &str)
        ensures
            res@ == self@.username,
    {
        self.username.as_str()
    }

    /// A Last.fm client for this API key and secret, not yet authenticated.
    pub fn scrobbler(&self) -> (res: Scrobbler)
        ensures
            client_keys(res) == (self@.api_key, self@.api_secret),
    {
        new_scrobbler(self.api_key.as_str(), self.api_secret.as_str())
    }
}

} // verus!
