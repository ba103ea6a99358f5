//! Profiles: the stored API token and endpoint, and the names of the files
//! that hold them.
use crate::text::{chars_of, contains_char, ends_with, extend_chars, has_suffix, lowercase_result,
    string_of, to_lowercase};
use vstd::prelude::*;

verus! {

/// The endpoint used when a profile names none.
pub open spec fn default_endpoint_spec() -> Seq<char> {
    "https://studio.fiberplane.com"@
}

/// The suffix of a profile file.
pub open spec fn toml_suffix() -> Seq<char> {
    seq!['.', 't', 'o', 'm', 'l']
}

/// A stored profile.
pub struct Config {
    pub api_token: Option<String>,
    pub endpoint: Option<String>,
}

impl Default for Config {
    fn default() -> (c: Config)
        ensures
            c.api_token is None,
            c.endpoint is None,
    {
        Config { api_token: None, endpoint: None }
    }
}

/// Why no API client could be configured.
#[derive(Debug, PartialEq, Eq, Structural)]
pub enum ConfigError {
    /// Neither a token argument nor a stored token.
    NotLoggedIn,
}

impl ConfigError {
    /// The message shown to the user.
    pub fn message(&self) -> (s: String)
        ensures
            s@ == "Must be logged in to run this command. Please run `fp login` first."@,
    {
        String::from_str("Must be logged in to run this command. Please run `fp login` first.")
    }
}

/// The token to authenticate with: the argument if one was given, else the
/// stored one.
pub open spec fn token_spec(token: Option<Seq<char>>, stored: Option<Seq<char>>) -> Option<
    Seq<char>,
> {
    match token {
        Some(t) => Some(t),
        None => stored,
    }
}

/// The view of an optional string.
pub open spec fn opt_chars(o: Option<String>) -> Option<Seq<char>> {
    match o {
        Some(s) => Some(s@),
        None => None,
    }
}

impl Config {
    /// The endpoint of the profile, or the default one.
    pub fn endpoint_or_default(&self) -> (s: String)
        ensures
            s@ == match self.endpoint {
                Some(e) => e@,
                None => default_endpoint_spec(),
            },
    {
        match &self.endpoint {
            Some(e) => e.clone(),
            None => String::from_str("https://studio.fiberplane.com"),
        }
    }

    /// The token to authenticate with: `token` when given, else the stored
    /// token; an error when there is neither.
    pub fn resolve_token(&self, token: Option<String>) -> (r: Result<String, ConfigError>)
        ensures
            match token_spec(opt_chars(token), opt_chars(self.api_token)) {
                Some(t) => r matches Ok(s) && s@ == t,
                None => r == Err::<String, ConfigError>(ConfigError::NotLoggedIn),
            },
    {
        match token {
            Some(t) => Ok(t),
            None => match &self.api_token {
                Some(t) => Ok(t.clone()),
                None => Err(ConfigError::NotLoggedIn),
            },
        }
    }
}

/// The file name of a profile: the name itself when it already ends with
/// `.toml`, else the name with `.toml` appended.
pub open spec fn profile_file_spec(profile: Seq<char>) -> Seq<char> {
    if has_suffix(profile, toml_suffix()) {
        profile
    } else {
        profile + toml_suffix()
    }
}

/// The file name of `profile` inside the profiles directory. Whether the
/// file exists is not checked.
pub fn profile_path(profile: &str) -> (r: String)
    ensures
        r@ == profile_file_spec(profile@),
{
    let name = chars_of(profile);
    let suffix: Vec<char> = vec!['.', 't', 'o', 'm', 'l'];
    assert(suffix@ =~= toml_suffix());
    if ends_with(&name, &suffix) {
        string_of(&name)
    } else {
        let mut out = name;
        extend_chars(&mut out, &suffix);
        string_of(&out)
    }
}

/// A profile's file name is its own file name: asking again for the file
/// of a file name changes nothing.
pub proof fn law_profile_file_idempotent(profile: Seq<char>)
    ensures
        profile_file_spec(profile_file_spec(profile)) == profile_file_spec(profile),
        has_suffix(profile_file_spec(profile), toml_suffix()),
{
    if !has_suffix(profile, toml_suffix()) {
        let f = profile + toml_suffix();
        assert(f.subrange(f.len() - 5, f.len() as int) =~= toml_suffix());
    }
}

/// Why a name cannot be used for a new profile.
#[derive(Debug, PartialEq, Eq, Structural)]
pub enum ProfileNameError {
    /// The lowercased name holds a space or a dot.
    SpaceOrDot,
}

/// The name under which a new profile is stored: the lowercased name, unless
/// that holds a space or a dot.
pub open spec fn profile_name_spec(name: Seq<char>) -> Option<Seq<char>> {
    let lower = lowercase_result(name);
    if lower.contains(' ') || lower.contains('.') {
        None
    } else {
        Some(lower)
    }
}

/// Checks the name given for a new profile and returns the name it is
/// stored under.
pub fn profile_name(name: &str) -> (r: Result<String, ProfileNameError>)
    ensures
        match profile_name_spec(name@) {
            Some(n) => r matches Ok(s) && s@ == n,
            None => r == Err::<String, ProfileNameError>(ProfileNameError::SpaceOrDot),
        },
{
    let lower = to_lowercase(name);
    let chars = chars_of(lower.as_str());
    if contains_char(&chars, ' ') || contains_char(&chars, '.') {
        Err(ProfileNameError::SpaceOrDot)
    } else {
        Ok(lower)
    }
}

} // verus!
