use vstd::prelude::*;
use vstd::string::StringExecFns;
use crate::qemu::qemu_path_builder::split_on;
use crate::qemu::qemu_system::split_on_char;
use crate::util::string_views;

verus! {

/// The message a path with too many colons is rejected with.
pub const TARGET_PATH_ERROR: &'static str = "Target path must have the format [[user@]instance:]path (e.g. 'cubic@mymachine:/home/cubic', 'mymachine:~/' or 'my_file'";

/// The message a target with more than one `@` is rejected with.
pub const TARGET_ERROR: &'static str = "Target must have the format [user@]instance (e.g. 'cubic@mymachine' or 'mymachine')";

/// The instance a path lives on, with the user to reach it as.
pub struct Target {
    user: Option<String>,
    instance: String,
}

/// A path on the host, or on an instance when a target is given in front of
/// it: `[[user@]instance:]path`.
pub struct TargetPath {
    target: Option<Target>,
    path: String,
}

/// Splitting a text gives at least one part.
pub proof fn lemma_split_nonempty(s: Seq<char>, sep: char)
    ensures
        split_on(s, sep).len() >= 1,
    decreases s.len(),
{
    if s.len() > 0 {
        lemma_split_nonempty(s.drop_last(), sep);
    }
}

/// A target as values: the user, if any, and the instance.
pub closed spec fn target_view(t: Target) -> (Option<Seq<char>>, Seq<char>) {
    (match t.user { Some(u) => Some(u@), None => None }, t.instance@)
}

/// What `[user@]instance` reads as: the parts between `@`, one or two of
/// them.
pub open spec fn parse_target(s: Seq<char>) -> Option<(Option<Seq<char>>, Seq<char>)> {
    let parts = split_on(s, '@');
    if parts.len() == 1 {
        Some((None, parts[0]))
    } else if parts.len() == 2 {
        Some((Some(parts[0]), parts[1]))
    } else {
        None
    }
}

/// What `[[user@]instance:]path` reads as: the parts between colons, a
/// path alone or a target and a path.
pub open spec fn parse_target_path(s: Seq<char>) -> Option<(Option<(Option<Seq<char>>, Seq<char>)>, Seq<char>)> {
    let parts = split_on(s, ':');
    if parts.len() == 1 {
        Some((None, parts[0]))
    } else if parts.len() == 2 {
        match parse_target(parts[0]) {
            Some(t) => Some((Some(t), parts[1])),
            None => None,
        }
    } else {
        None
    }
}

/// A target path as values.
pub closed spec fn target_path_view(t: TargetPath) -> (Option<(Option<Seq<char>>, Seq<char>)>, Seq<char>) {
    (match t.target { Some(x) => Some(target_view(x)), None => None }, t.path@)
}

/// The message a text that is no target path is rejected with.
pub open spec fn target_path_error(s: Seq<char>) -> Seq<char> {
    if split_on(s, ':').len() > 2 { TARGET_PATH_ERROR@ } else { TARGET_ERROR@ }
}

/// `[user@]instance` as text.
pub open spec fn target_text(t: (Option<Seq<char>>, Seq<char>)) -> Seq<char> {
    match t.0 {
        Some(u) => u + "@"@ + t.1,
        None => t.1,
    }
}

impl Target {
    /// Reads `[user@]instance`.
    pub fn from_str(s: &str) -> (r: Result<Target, String>)
        ensures
            r matches Ok(t) ==> parse_target(s@) == Some(target_view(t)),
            r matches Err(e) ==> parse_target(s@) is None && e@ == TARGET_ERROR@,
    {
        let mut parts = split_on_char(s, '@');
        let ghost pv = string_views(parts@);
        proof { lemma_split_nonempty(s@, '@'); }
        if parts.len() == 1 {
            let instance = parts.pop().unwrap();
            assert(instance@ == pv[0]);
            Ok(Target { user: None, instance })
        } else if parts.len() == 2 {
            let instance = parts.pop().unwrap();
            let user = parts.pop().unwrap();
            assert(instance@ == pv[1] && user@ == pv[0]);
            Ok(Target { user: Some(user), instance })
        } else {
            Err(String::from_str(TARGET_ERROR))
        }
    }

    pub fn get_instance(&self) -> (r: &String)
        ensures
            r@ == target_view(*self).1,
    {
        &self.instance
    }

    pub fn get_user(&self) -> (r: Option<&String>)
        ensures
            r matches Some(u) ==> target_view(*self).0 == Some(u@),
            r is None <==> target_view(*self).0 is None,
    {
        match &self.user {
            Some(u) => Some(u),
            None => None,
        }
    }

    /// The target as it is written: `user@instance` or `instance`.
    pub fn to_string(&self) -> (r: String)
        ensures
            r@ == target_text(target_view(*self)),
    {
        match &self.user {
            Some(u) => {
                let mut t = u.clone();
                t.append("@");
                t.append(self.instance.as_str());
                proof { reveal_strlit("@"); }
                t
            },
            None => self.instance.clone(),
        }
    }
}

impl TargetPath {
    /// Reads `[[user@]instance:]path`.
    pub fn from_str(s: &str) -> (r: Result<TargetPath, String>)
        ensures
            r matches Ok(t) ==> parse_target_path(s@) == Some(target_path_view(t)),
            r matches Err(e) ==> parse_target_path(s@) is None && e@ == target_path_error(s@),
    {
        let mut parts = split_on_char(s, ':');
        let ghost pv = string_views(parts@);
        proof { lemma_split_nonempty(s@, ':'); }
        if parts.len() == 1 {
            let path = parts.pop().unwrap();
            assert(path@ == pv[0]);
            Ok(TargetPath { target: None, path })
        } else if parts.len() == 2 {
            let path = parts.pop().unwrap();
            let first = parts.pop().unwrap();
            assert(path@ == pv[1] && first@ == pv[0]);
            match Target::from_str(first.as_str()) {
                Ok(target) => Ok(TargetPath { target: Some(target), path }),
                Err(e) => {
                    assert(parse_target(pv[0]) is None);
                    assert(target_path_error(s@) == TARGET_ERROR@);
                    Err(e)
                },
            }
        } else {
            assert(pv.len() > 2);
            Err(String::from_str(TARGET_PATH_ERROR))
        }
    }

    /// The target the path lives on; none for a path on the host.
    pub fn get_target(&self) -> (r: Option<&Target>)
        ensures
            r matches Some(t) ==> target_path_view(*self).0 == Some(target_view(*t)),
            r is None <==> target_path_view(*self).0 is None,
    {
        match &self.target {
            Some(t) => Some(t),
            None => None,
        }
    }

    /// The path, on the target or on the host.
    pub fn get_path(&self) -> (r: &String)
        ensures
            r@ == target_path_view(*self).1,
    {
        &self.path
    }

    /// The path as it is written: `target:path` or `path`.
    pub fn to_string(&self) -> (r: String)
        ensures
            r@ == match target_path_view(*self).0 {
                Some(t) => target_text(t) + ":"@ + target_path_view(*self).1,
                None => target_path_view(*self).1,
            },
    {
        match &self.target {
            Some(t) => {
                let mut s = t.to_string();
                s.append(":");
                s.append(self.path.as_str());
                proof { reveal_strlit(":"); }
                s
            },
            None => self.path.clone(),
        }
    }
}

} // verus!
