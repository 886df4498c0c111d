use vstd::prelude::*;
use vstd::string::StringExecFns;
use crate::error::Error;
use crate::json::{entries, get, get_member, member, Json};
use crate::qemu::qemu_img::json_u64;
use crate::qemu::qmp_message::QmpMessage;
use crate::text::{parse_unsigned, parse_unsigned_text};

verus! {

/// The guest agent commands and the members of their answers.
pub const GUEST_SYNC: &'static str = "guest-sync";
pub const GUEST_PING: &'static str = "guest-ping";
pub const GUEST_EXEC: &'static str = "guest-exec";
pub const GUEST_EXEC_STATUS: &'static str = "guest-exec-status";

/// The members of a successful answer, if it carries an object.
pub open spec fn answer_fields(response: Result<QmpMessage, Error>) -> Option<Json> {
    match response {
        Ok(QmpMessage::Success { ret, .. }) => if ret is Object { Some(ret) } else { None },
        _ => None,
    }
}

/// Whether the `pid` of an answer, where it is a number, is one that fits
/// in a `u64`.
pub open spec fn pid_readable(response: Result<QmpMessage, Error>) -> bool {
    match answer_fields(response) {
        Some(j) => match get(j, "pid"@) {
            Some(Json::Number(t)) => json_u64(Some(Json::Number(t))) is Some,
            _ => true,
        },
        None => true,
    }
}

/// The process a `guest-exec` answer names.
pub open spec fn exec_pid_of(response: Result<QmpMessage, Error>) -> Option<u64> {
    match answer_fields(response) {
        Some(j) => match get(j, "pid"@) {
            Some(Json::Number(t)) => json_u64(Some(Json::Number(t))),
            _ => None,
        },
        None => None,
    }
}

/// Whether a `guest-exec-status` answer says the process has exited.
pub open spec fn exited_of(response: Result<QmpMessage, Error>) -> bool {
    match answer_fields(response) {
        Some(j) => match get(j, "exited"@) {
            Some(Json::Bool(b)) => b,
            _ => false,
        },
        None => false,
    }
}

fn texts_json(items: &Vec<String>) -> (r: Json)
    ensures
        r matches Json::Array(a) && a@.len() == items@.len()
            && forall|i: int| 0 <= i < items@.len() ==> (#[trigger] a@[i] matches Json::Text(s) && s@ == items@[i]@),
{
    let mut a: Vec<Json> = Vec::new();
    let mut k: usize = 0;
    while k < items.len()
        invariant
            0 <= k <= items@.len(),
            a@.len() == k,
            forall|i: int| 0 <= i < k ==> (#[trigger] a@[i] matches Json::Text(s) && s@ == items@[i]@),
        decreases items@.len() - k,
    {
        a.push(Json::Text(items[k].clone()));
        k = k + 1;
    }
    Json::Array(a)
}

/// The arguments of `guest-sync`: the id 1.
pub fn sync_arguments() -> (r: Json)
    ensures
        r matches Json::Object(ms) && ms@.len() == 1 && ms@[0].0@ == "id"@
            && (ms@[0].1 matches Json::Number(n) && n@ == "1"@),
{
    let mut ms: Vec<(String, Json)> = Vec::new();
    ms.push((String::from_str("id"), Json::Number(String::from_str("1"))));
    Json::Object(ms)
}

/// The arguments of `guest-exec`: the program, its arguments and its
/// environment.
pub fn exec_arguments(program: &str, args: &Vec<String>, env: &Vec<String>) -> (r: Json)
    ensures
        r matches Json::Object(ms) && ms@.len() == 3
            && ms@[0].0@ == "path"@ && (ms@[0].1 matches Json::Text(p) && p@ == program@)
            && ms@[1].0@ == "arg"@ && (ms@[1].1 matches Json::Array(a) && a@.len() == args@.len()
                && forall|i: int| 0 <= i < args@.len() ==> (#[trigger] a@[i] matches Json::Text(s) && s@ == args@[i]@))
            && ms@[2].0@ == "env"@ && (ms@[2].1 matches Json::Array(e) && e@.len() == env@.len()
                && forall|i: int| 0 <= i < env@.len() ==> (#[trigger] e@[i] matches Json::Text(s) && s@ == env@[i]@)),
{
    let mut ms: Vec<(String, Json)> = Vec::new();
    ms.push((String::from_str("path"), Json::Text(program.to_string())));
    ms.push((String::from_str("arg"), texts_json(args)));
    ms.push((String::from_str("env"), texts_json(env)));
    Json::Object(ms)
}

/// The arguments of `guest-exec-status`: the process.
pub fn exec_status_arguments(pid: u64) -> (r: Json)
    ensures
        r matches Json::Object(ms) && ms@.len() == 1 && ms@[0].0@ == "pid"@
            && (ms@[0].1 matches Json::Number(n) && n@ == crate::text::decimal(pid as nat)),
{
    let mut ms: Vec<(String, Json)> = Vec::new();
    ms.push((String::from_str("pid"), Json::Number(crate::text::decimal_string(pid))));
    Json::Object(ms)
}

/// Whether the `pid` of a `guest-exec` answer, where it is a number, fits
/// in a `u64`.
pub fn pid_is_readable(response: &Result<QmpMessage, Error>) -> (r: bool)
    ensures
        r == pid_readable(*response),
{
    if let Ok(QmpMessage::Success { ret, .. }) = response {
        if let Json::Object(_) = ret {
            if let Some(Json::Number(t)) = get_member(ret, "pid") {
                let s = t.as_str();
                return s.unicode_len() > 0 && s.get_char(0) != '+' && parse_unsigned_text(s, u64::MAX).is_some();
            }
        }
    }
    true
}

/// The process a `guest-exec` answer names; any other answer is a failed
/// execution.
pub fn exec_pid(response: Result<QmpMessage, Error>) -> (r: Result<u64, Error>)
    requires
        pid_readable(response),
    ensures
        exec_pid_of(response) matches Some(p) ==> r == Ok::<u64, Error>(p),
        exec_pid_of(response) is None ==> r == Err::<u64, Error>(Error::ExecFailed),
{
    if let Ok(QmpMessage::Success { ret, .. }) = &response {
        if let Json::Object(_) = ret {
            if let Some(Json::Number(t)) = get_member(ret, "pid") {
                let s = t.as_str();
                if s.unicode_len() > 0 && s.get_char(0) != '+' {
                    if let Some(p) = parse_unsigned_text(s, u64::MAX) {
                        return Ok(p);
                    }
                }
            }
        }
    }
    Err(Error::ExecFailed)
}

/// Whether a `guest-exec-status` answer says the process has exited; any
/// other answer says it has not.
pub fn exec_exited(response: Result<QmpMessage, Error>) -> (r: Result<bool, Error>)
    ensures
        r == Ok::<bool, Error>(exited_of(response)),
{
    if let Ok(QmpMessage::Success { ret, .. }) = &response {
        if let Json::Object(_) = ret {
            if let Some(Json::Bool(b)) = get_member(ret, "exited") {
                return Ok(*b);
            }
        }
    }
    Ok(false)
}

} // verus!
