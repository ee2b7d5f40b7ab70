//! Browser profile rules: profile names, the data directories a window may use, and the
//! cookie names that mark a signed-in session.
use vstd::prelude::*;
use crate::text::{
    ascii_lower_seq, chars_of, contains_str, equals_str, is_ascii_alnum, is_digit, to_ascii_lowercase,
    trim, trim_str, utf8_len, utf8_len_within, has_infix, starts_with_str,
};

verus! {

pub const WEB_PROFILE_DIR_NAME: &'static str = "web-profile";
pub const PROFILES_DIR_NAME: &'static str = "profiles";
pub const AUTH_SESSION_PROFILE_DIR_NAME: &'static str = "auth-session-profiles";
pub const MAX_PROFILE_NAME_BYTES: usize = 64;

#[derive(Debug, Clone, PartialEq, Eq)]
pub enum WebProfileError {
    Validation(String),
    Storage(String),
}

/// The message of a validation error, or nothing for a storage error.
pub open spec fn validation_message(e: WebProfileError) -> Option<Seq<char>> {
    match e {
        WebProfileError::Validation(m) => Some(m@),
        WebProfileError::Storage(_) => None,
    }
}

/// A character allowed in a profile name.
pub open spec fn is_profile_char(c: char) -> bool {
    is_ascii_alnum(c) || c == '-' || c == '_'
}

/// What a profile name validates to: trimmed, non-empty, at most 64 bytes, and made of
/// ASCII letters, digits, dashes and underscores; the error message otherwise.
pub open spec fn profile_name_error(name: Seq<char>) -> Option<Seq<char>> {
    let t = trim(name);
    if t.len() == 0 {
        Some("profile name must not be empty"@)
    } else if utf8_len(t) > MAX_PROFILE_NAME_BYTES {
        Some("profile name must be at most 64 characters"@)
    } else if !(forall|i: int| 0 <= i < t.len() ==> is_profile_char(#[trigger] t[i])) {
        Some("profile name may only contain alphanumeric characters, dashes, and underscores"@)
    } else {
        None
    }
}

fn all_profile_chars(v: &Vec<char>) -> (b: bool)
    ensures
        b == (forall|i: int| 0 <= i < v@.len() ==> is_profile_char(#[trigger] v@[i])),
{
    let mut i: usize = 0;
    while i < v.len()
        invariant
            i <= v@.len(),
            forall|j: int| 0 <= j < i ==> is_profile_char(#[trigger] v@[j]),
        decreases v@.len() - i,
    {
        let c = v[i];
        if !(('0' <= c && c <= '9') || ('a' <= c && c <= 'z') || ('A' <= c && c <= 'Z') || c == '-' || c == '_') {
            return false;
        }
        i += 1;
    }
    true
}

/// Validates a named profile.
pub fn validate_profile_name(name: &str) -> (r: Result<(), WebProfileError>)
    ensures
        match r {
            Ok(()) => profile_name_error(name@) is None,
            Err(e) => profile_name_error(name@) is Some && validation_message(e) == profile_name_error(name@),
        },
{
    let trimmed = trim_str(name);
    let v = chars_of(trimmed.as_str());
    if v.len() == 0 {
        return Err(WebProfileError::Validation(String::from_str("profile name must not be empty")));
    }
    if utf8_len_within(&v, MAX_PROFILE_NAME_BYTES).is_none() {
        return Err(WebProfileError::Validation(String::from_str("profile name must be at most 64 characters")));
    }
    if !all_profile_chars(&v) {
        return Err(WebProfileError::Validation(String::from_str("profile name may only contain alphanumeric characters, dashes, and underscores")));
    }
    Ok(())
}

/// The cookie names that mark a signed-in session, after trimming and ASCII
/// lower-casing.
pub open spec fn is_known_auth_cookie(n: Seq<char>) -> bool {
    n == "sid"@ || n == "ssid"@ || n == "hsid"@ || n == "sapisid"@ || n == "user_session"@
        || n == "logged_in"@ || n == "dotcom_user"@ || n == "d"@ || n == "d-s"@ || n == "token"@
        || n == "session"@ || n == "connect.sid"@ || n == "auth_token"@ || n == "authtoken"@
        || n == "__session"@ || n == "user_id"@ || n == "auth"@ || n == "jwt"@
}

/// Whether a cookie name marks a signed-in session: a known name, or one containing
/// `session` or `authtoken`, compared after trimming and ASCII lower-casing.
pub open spec fn auth_cookie(name: Seq<char>) -> bool {
    let n = ascii_lower_seq(trim(name));
    is_known_auth_cookie(n) || has_infix(n, "session"@) || has_infix(n, "authtoken"@)
}

/// Whether a cookie name marks a signed-in session.
pub fn is_auth_cookie_name(name: &str) -> (b: bool)
    ensures
        b == auth_cookie(name@),
{
    let trimmed = trim_str(name);
    let lowered = to_ascii_lowercase(trimmed.as_str());
    let n = chars_of(lowered.as_str());
    equals_str(&n, "sid") || equals_str(&n, "ssid") || equals_str(&n, "hsid") || equals_str(&n, "sapisid")
        || equals_str(&n, "user_session") || equals_str(&n, "logged_in") || equals_str(&n, "dotcom_user")
        || equals_str(&n, "d") || equals_str(&n, "d-s") || equals_str(&n, "token") || equals_str(&n, "session")
        || equals_str(&n, "connect.sid") || equals_str(&n, "auth_token") || equals_str(&n, "authtoken")
        || equals_str(&n, "__session") || equals_str(&n, "user_id") || equals_str(&n, "auth") || equals_str(&n, "jwt")
        || contains_str(&n, "session") || contains_str(&n, "authtoken")
}

/// A hexadecimal digit, either case.
pub open spec fn is_hex(c: char) -> bool {
    is_digit(c) || ('a' <= c && c <= 'f') || ('A' <= c && c <= 'F')
}

/// The message for a window session id that is not `wsess_` and 32 hexadecimal digits.
pub open spec fn window_id_error(s: Seq<char>) -> Option<Seq<char>> {
    if !"wsess_"@.is_prefix_of(s) {
        Some("window session ID must start with 'wsess_'"@)
    } else if !(s.len() == "wsess_"@.len() + 32 && forall|i: int| "wsess_"@.len() <= i < s.len() ==> is_hex(#[trigger] s[i])) {
        Some("window session ID must be 'wsess_' followed by 32 hexadecimal digits"@)
    } else {
        None
    }
}

/// Checks a window session id used to name a per-window profile directory.
pub fn validate_window_session_id(value: &str) -> (r: Result<(), WebProfileError>)
    ensures
        match r {
            Ok(()) => window_id_error(value@) is None,
            Err(e) => window_id_error(value@) is Some && validation_message(e) == window_id_error(value@),
        },
{
    let v = chars_of(value);
    if !starts_with_str(&v, "wsess_") {
        return Err(WebProfileError::Validation(String::from_str("window session ID must start with 'wsess_'")));
    }
    let p = chars_of("wsess_");
    let mut ok = v.len() - p.len() == 32;
    let mut i = p.len();
    while ok && i < v.len()
        invariant
            p@.len() <= i <= v@.len(),
            p@ == "wsess_"@,
            v@ == value@,
            ok ==> v@.len() == p@.len() + 32,
            ok ==> forall|j: int| p@.len() <= j < i ==> is_hex(#[trigger] v@[j]),
            !ok ==> !(v@.len() == p@.len() + 32 && forall|j: int| p@.len() <= j < v@.len() ==> is_hex(#[trigger] v@[j])),
        decreases v@.len() - i,
    {
        let c = v[i];
        if !(('0' <= c && c <= '9') || ('a' <= c && c <= 'f') || ('A' <= c && c <= 'F')) {
            ok = false;
        }
        i += 1;
    }
    if !ok {
        return Err(WebProfileError::Validation(String::from_str("window session ID must be 'wsess_' followed by 32 hexadecimal digits")));
    }
    Ok(())
}

/// Where a window's browser data lives.
#[derive(Clone, Debug, PartialEq, Eq)]
pub enum ProfileDirectory {
    /// The shared default profile.
    Default(String),
    /// A named profile under the profiles root; the caller creates it if missing.
    Named(String),
}

/// The browser data directories.
#[derive(Clone, Debug, PartialEq, Eq)]
pub struct WebProfile {
    data_directory: String,
    profiles_root: String,
    auth_session_root: String,
}

/// What `WebProfile::check_data_directory` requires of a data directory: not empty and
/// absolute.
pub open spec fn data_directory_error(p: Seq<char>) -> Option<Seq<char>> {
    if p.len() == 0 {
        Some("web profile data directory must not be empty"@)
    } else if p[0] != '/' {
        Some("web profile data directory must be an absolute path"@)
    } else {
        None
    }
}

impl WebProfile {
    /// The default profile's directory.
    pub closed spec fn data_dir(&self) -> Seq<char> {
        self.data_directory@
    }

    /// The root of the named profiles.
    pub closed spec fn profiles_dir(&self) -> Seq<char> {
        self.profiles_root@
    }

    /// The root of the per-window authenticated-session profiles.
    pub closed spec fn auth_dir(&self) -> Seq<char> {
        self.auth_session_root@
    }

    /// Checks a data directory before anything is created under it.
    pub fn check_data_directory(path: &str) -> (r: Result<(), WebProfileError>)
        ensures
            match r {
                Ok(()) => data_directory_error(path@) is None,
                Err(e) => validation_message(e) == data_directory_error(path@) && data_directory_error(path@) is Some,
            },
    {
        let v = chars_of(path);
        if v.len() == 0 {
            return Err(WebProfileError::Validation(String::from_str("web profile data directory must not be empty")));
        }
        if v[0] != '/' {
            return Err(WebProfileError::Validation(String::from_str("web profile data directory must be an absolute path")));
        }
        Ok(())
    }

    /// The profile layout once its directories are prepared.
    pub fn from_directories(data_directory: String, profiles_root: String, auth_session_root: String) -> (w: WebProfile)
        ensures
            w.data_dir() == data_directory@,
            w.profiles_dir() == profiles_root@,
            w.auth_dir() == auth_session_root@,
    {
        WebProfile { data_directory, profiles_root, auth_session_root }
    }

    /// The directory of the default profile.
    pub fn data_directory(&self) -> (d: &str)
        ensures
            d@ == self.data_dir(),
    {
        self.data_directory.as_str()
    }

    /// The root of the per-window authenticated-session profiles.
    pub fn auth_session_root(&self) -> (d: &str)
        ensures
            d@ == self.auth_dir(),
    {
        self.auth_session_root.as_str()
    }

    /// The directory a window's profile uses: the default one for no name or `default`,
    /// else the validated named profile under the profiles root.
    pub fn profile_data_directory(&self, name: Option<&str>) -> (r: Result<ProfileDirectory, WebProfileError>)
        ensures
            match name {
                None => r matches Ok(ProfileDirectory::Default(d)) && d@ == self.data_dir(),
                Some(n) => if n@ == "default"@ {
                    r matches Ok(ProfileDirectory::Default(d)) && d@ == self.data_dir()
                } else {
                    match r {
                        Ok(ProfileDirectory::Named(p)) => profile_name_error(n@) is None && p@ == self.profiles_dir() + "/"@ + n@,
                        Ok(ProfileDirectory::Default(_)) => false,
                        Err(e) => profile_name_error(n@) is Some && validation_message(e) == profile_name_error(n@),
                    }
                },
            },
    {
        match name {
            None => Ok(ProfileDirectory::Default(self.data_directory.clone())),
            Some(n) => {
                if crate::text::str_eq(n, "default") {
                    return Ok(ProfileDirectory::Default(self.data_directory.clone()));
                }
                match validate_profile_name(n) {
                    Ok(()) => {},
                    Err(e) => return Err(e),
                }
                let mut p = self.profiles_root.clone();
                p.append("/");
                p.append(n);
                Ok(ProfileDirectory::Named(p))
            },
        }
    }
}

} // verus!
