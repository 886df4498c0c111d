use vstd::prelude::*;
use vstd::string::StringExecFns;
use crate::pattern::{match_pattern, regex_match};

verus! {

/// The names an instance may have: letters, digits, underlines and dashes.
pub const INSTANCE_NAME_PATTERN: &'static str = "^[\\w_-]+$";

/// The message a name outside the pattern is rejected with.
pub open spec fn instance_name_error() -> Seq<char> {
    "Instance name must only contain letters, numbers, underlines and dashes"@
}

/// The name of an instance, one that matches the instance name pattern.
#[derive(Debug, PartialEq, Eq, Hash)]
pub struct InstanceName {
    name: String,
}

impl View for InstanceName {
    type V = Seq<char>;

    closed spec fn view(&self) -> Seq<char> {
        self.name@
    }
}

impl Clone for InstanceName {
    fn clone(&self) -> (r: InstanceName)
        ensures
            r@ == self@,
    {
        InstanceName { name: self.name.clone() }
    }
}

impl InstanceName {
    pub fn as_str(&self) -> (r: &str)
        ensures
            r@ == self@,
    {
        self.name.as_str()
    }

    /// The name as it is displayed.
    pub fn to_string(&self) -> (r: String)
        ensures
            r@ == self@,
    {
        self.name.clone()
    }

    /// Accepts `name` when the pattern matched it; `matched` is the answer
    /// of the regex crate, `None` when it refused the pattern.
    pub fn from_match(name: &str, matched: Option<bool>) -> (r: Result<InstanceName, String>)
        ensures
            matched == Some(true) ==> (r matches Ok(n) && n@ == name@),
            matched != Some(true) ==> (r matches Err(e) && e@ == instance_name_error()),
    {
        match matched {
            Some(true) => Ok(InstanceName { name: name.to_string() }),
            _ => Err(String::from_str("Instance name must only contain letters, numbers, underlines and dashes")),
        }
    }

    /// Parses an instance name: letters, numbers, underlines and dashes.
    pub fn from_str(name: &str) -> (r: Result<InstanceName, String>)
        ensures
            regex_match(INSTANCE_NAME_PATTERN@, name@) == Some(true) ==> (r matches Ok(n) && n@ == name@),
            regex_match(INSTANCE_NAME_PATTERN@, name@) != Some(true) ==> (r matches Err(e) && e@ == instance_name_error()),
    {
        Self::from_match(name, match_pattern(INSTANCE_NAME_PATTERN, name))
    }
}

} // verus!
