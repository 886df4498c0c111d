use vstd::prelude::*;
use vstd::string::StringExecFns;
use crate::error::Error;
use crate::pattern::{match_pattern, regex_match};

verus! {

/// The user name a machine gets when none is given.
pub const DEFAULT_USERNAME: &'static str = "cubic";

/// The names a user may have: a lower case letter or underline, then lower
/// case letters, digits, underlines and dashes.
pub const USER_NAME_PATTERN: &'static str = "^[a-z_][a-z0-9_-]*$";

/// The name of the user created inside a machine.
#[derive(Debug, PartialEq)]
pub struct UserName {
    name: String,
}

impl View for UserName {
    type V = Seq<char>;

    closed spec fn view(&self) -> Seq<char> {
        self.name@
    }
}

impl Clone for UserName {
    fn clone(&self) -> (r: UserName)
        ensures
            r@ == self@,
    {
        UserName { name: self.name.clone() }
    }
}

impl Default for UserName {
    fn default() -> (r: UserName)
        ensures
            r@ == DEFAULT_USERNAME@,
    {
        UserName { name: DEFAULT_USERNAME.to_string() }
    }
}

impl UserName {
    pub fn as_str(&self) -> (r: &str)
        ensures
            r@ == self@,
    {
        self.name.as_str()
    }

    /// The name as it is displayed.
    pub fn to_string(&self) -> (r: String)
        ensures
            r@ == self@,
    {
        self.name.clone()
    }

    /// Accepts `name` when the pattern matched it; `matched` is the answer
    /// of the regex crate, `None` when it refused the pattern.
    pub fn from_match(name: &str, matched: Option<bool>) -> (r: Result<UserName, Error>)
        ensures
            matched == Some(true) ==> (r matches Ok(n) && n@ == name@),
            matched != Some(true) ==> (r matches Err(Error::InvalidUsername(s)) && s@ == name@),
    {
        match matched {
            Some(true) => Ok(UserName { name: name.to_string() }),
            _ => Err(Error::InvalidUsername(name.to_string())),
        }
    }

    /// Parses a user name.
    pub fn from_str(name: &str) -> (r: Result<UserName, Error>)
        ensures
            regex_match(USER_NAME_PATTERN@, name@) == Some(true) ==> (r matches Ok(n) && n@ == name@),
            regex_match(USER_NAME_PATTERN@, name@) != Some(true)
                ==> (r matches Err(Error::InvalidUsername(s)) && s@ == name@),
    {
        Self::from_match(name, match_pattern(USER_NAME_PATTERN, name))
    }

    /// The name read back from a stored configuration: a name outside the
    /// pattern falls back to the default rather than failing.
    pub fn from_stored(name: &str) -> (r: UserName)
        ensures
            regex_match(USER_NAME_PATTERN@, name@) == Some(true) ==> r@ == name@,
            regex_match(USER_NAME_PATTERN@, name@) != Some(true) ==> r@ == DEFAULT_USERNAME@,
    {
        match Self::from_str(name) {
            Ok(n) => n,
            Err(_) => UserName::default(),
        }
    }
}

} // verus!
