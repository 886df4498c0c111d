use vstd::prelude::*;
use vstd::string::{StrSliceExecFns, StringExecFns};
use crate::models::instance::Instance;

verus! {

/// A path on an instance, given with an optional user.
pub struct TargetInstancePath {
    pub user: Option<String>,
    pub instance: Option<Instance>,
    pub path: String,
}

/// The user a path is read for: the one given, else the instance's.
pub open spec fn path_user(t: TargetInstancePath) -> Option<Seq<char>> {
    match t.user {
        Some(u) => Some(u@),
        None => match t.instance {
            Some(i) => Some(i.user@),
            None => None,
        },
    }
}

/// The path with a leading `~` read as the home directory of the user,
/// where there is one.
pub open spec fn expanded_path(t: TargetInstancePath) -> Seq<char> {
    match path_user(t) {
        Some(user) => if t.path@.len() > 0 && t.path@[0] == '~' {
            "/home/"@ + user + t.path@.drop_first()
        } else {
            t.path@
        },
        None => t.path@,
    }
}

impl TargetInstancePath {
    /// The path, with `~` expanded to `/home/<user>`.
    pub fn to_pathbuf(&self) -> (r: String)
        ensures
            r@ == expanded_path(*self),
    {
        let user: Option<&str> = match &self.user {
            Some(u) => Some(u.as_str()),
            None => match &self.instance {
                Some(i) => Some(i.user.as_str()),
                None => None,
            },
        };
        let n = self.path.unicode_len();
        match user {
            Some(u) => {
                if n > 0 && self.path.as_str().get_char(0) == '~' {
                    let mut r = String::from_str("/home/");
                    r.append(u);
                    let rest = self.path.as_str().substring_char(1, n);
                    r.append(rest);
                    assert(rest@ =~= self.path@.drop_first());
                    r
                } else {
                    self.path.clone()
                }
            },
            None => self.path.clone(),
        }
    }
}

} // verus!
