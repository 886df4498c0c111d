use vstd::prelude::*;
use vstd::string::StringExecFns;
use crate::error::Error;
use crate::json::{Json};
use crate::models::port_forward::{forward_qemu_text, ip_text, protocol_name, PortForward};
use crate::paths::{contains, contains_text};
use crate::qemu::qmp_message::QmpMessage;
use crate::text::{decimal, decimal_string, trim_text, trimmed};

verus! {

/// The user network device every machine gets.
pub const NETDEV_ID: &'static str = "net0";

/// How long a monitor waits for QEMU to read or write, in milliseconds.
pub const QMP_TIMEOUT_MS: u64 = 100;

/// The QMP verb that runs a human monitor command line.
pub const HMP_COMMAND: &'static str = "human-monitor-command";

/// The HMP line that adds a forward to the user network.
pub open spec fn hostfwd_add_text(fwd: PortForward) -> Seq<char> {
    "hostfwd_add net0 "@ + forward_qemu_text(fwd@)
}

/// The HMP line that removes the forward of a host port.
pub open spec fn hostfwd_remove_text(fwd: PortForward) -> Seq<char> {
    "hostfwd_remove net0 "@ + protocol_name(fwd@.3) + ":"@ + ip_text(fwd@.0) + ":"@ + decimal(fwd@.1 as nat)
}

/// What an HMP command printed, as its answer carries it: the text of a
/// success without the white space around it (empty where it holds no
/// text), the description of an error, and nothing for anything else.
pub open spec fn hmp_printed(response: QmpMessage) -> Result<Seq<char>, Seq<char>> {
    match response {
        QmpMessage::Success { ret, .. } => Ok(match ret {
            Json::Text(s) => trimmed(s@),
            _ => Seq::empty(),
        }),
        QmpMessage::Error { error, .. } => Err(error.desc@),
        _ => Ok(Seq::empty()),
    }
}

/// The line that adds `fwd`.
pub fn hostfwd_add_line(fwd: &PortForward) -> (r: String)
    ensures
        r@ == hostfwd_add_text(*fwd),
{
    let mut r = String::from_str("hostfwd_add ");
    r.append(NETDEV_ID);
    r.append(" ");
    r.append(fwd.to_qemu().as_str());
    proof { reveal_strlit("hostfwd_add "); reveal_strlit("net0"); reveal_strlit(" "); reveal_strlit("hostfwd_add net0 "); }
    assert(r@ =~= hostfwd_add_text(*fwd));
    r
}

/// The line that removes the forward of `fwd`'s host port.
pub fn hostfwd_remove_line(fwd: &PortForward) -> (r: String)
    ensures
        r@ == hostfwd_remove_text(*fwd),
{
    let mut r = String::from_str("hostfwd_remove ");
    r.append(NETDEV_ID);
    r.append(" ");
    r.append(fwd.get_protocol().to_string().as_str());
    r.append(":");
    r.append(fwd.get_host_ip().to_string().as_str());
    r.append(":");
    r.append(decimal_string(fwd.get_host_port() as u64).as_str());
    proof { reveal_strlit("hostfwd_remove "); reveal_strlit("net0"); reveal_strlit(" "); reveal_strlit("hostfwd_remove net0 "); }
    assert(r@ =~= hostfwd_remove_text(*fwd));
    r
}

/// The arguments of the HMP passthrough: the command line.
pub fn hmp_arguments(command_line: &str) -> (r: Json)
    ensures
        r matches Json::Object(ms) && ms@.len() == 1 && ms@[0].0@ == "command-line"@
            && (ms@[0].1 matches Json::Text(s) && s@ == command_line@),
{
    let mut ms: Vec<(String, Json)> = Vec::new();
    ms.push((String::from_str("command-line"), Json::Text(command_line.to_string())));
    Json::Object(ms)
}

/// What an HMP command printed; an error answer is a failed forward
/// command.
pub fn hmp_output(response: QmpMessage) -> (r: Result<String, Error>)
    ensures
        hmp_printed(response) matches Ok(t) ==> r matches Ok(s) && s@ == t,
        hmp_printed(response) matches Err(d) ==> r matches Err(Error::HostfwdCommandFailed(e)) && e@ == d,
{
    match response {
        QmpMessage::Success { ret, .. } => match ret {
            Json::Text(s) => Ok(trim_text(s.as_str())),
            _ => Ok(String::new()),
        },
        QmpMessage::Error { error, .. } => Err(Error::HostfwdCommandFailed(error.desc)),
        _ => Ok(String::new()),
    }
}

/// Adding a forward printed nothing when it worked; anything it printed is
/// the failure.
pub fn add_hostfwd_outcome(output: String) -> (r: Result<(), Error>)
    ensures
        output@.len() == 0 ==> r is Ok,
        output@.len() > 0 ==> r == Err::<(), Error>(Error::HostfwdCommandFailed(output)),
{
    if output.unicode_len() == 0 {
        Ok(())
    } else {
        Err(Error::HostfwdCommandFailed(output))
    }
}

/// Removing a forward failed when QEMU says it was not found.
pub fn remove_hostfwd_outcome(output: String) -> (r: Result<(), Error>)
    ensures
        !contains_text(output@, "not found"@) ==> r is Ok,
        contains_text(output@, "not found"@) ==> r == Err::<(), Error>(Error::HostfwdCommandFailed(output)),
{
    if contains(output.as_str(), "not found") {
        Err(Error::HostfwdCommandFailed(output))
    } else {
        Ok(())
    }
}

} // verus!
