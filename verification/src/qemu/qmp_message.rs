use vstd::prelude::*;
use vstd::string::{StrSliceExecFns, StringExecFns};
use crate::json::{entries, member, member_ref, take_member, Json};
use crate::text::{all_digits, decimal, decimal_string, digits_value, is_digit, parse_unsigned, parse_unsigned_text};

verus! {

/// When an event happened, as QEMU stamps it.
#[derive(Debug)]
pub struct QmpTimestamp {
    pub seconds: i64,
    pub microseconds: i64,
}

/// The class and description of a failed command.
#[derive(Debug)]
pub struct QmpError {
    pub class: String,
    pub desc: String,
}

/// A message of the QEMU machine protocol, told apart by its members: the
/// first of these shapes that fits is the one a message has.
#[derive(Debug)]
pub enum QmpMessage {
    Greeting { qmp: Json },
    Command { id: Option<String>, execute: String, arguments: Json },
    Event { event: String, data: Option<Json>, timestamp: QmpTimestamp },
    Success { id: Option<String>, ret: Json },
    Error { id: Option<String>, error: QmpError },
}

/// An optional request id: absent or null is none, a text is the id, and
/// anything else does not fit.
pub open spec fn id_field(m: Seq<(String, Json)>) -> Option<Option<String>> {
    match member(m, "id"@) {
        None => Some(None),
        Some(Json::Null) => Some(None),
        Some(Json::Text(s)) => Some(Some(s)),
        Some(_) => None,
    }
}

/// A member given under its name or under its alias, not under both.
pub open spec fn either_field(m: Seq<(String, Json)>, name: Seq<char>, alias: Seq<char>) -> Option<Json> {
    match (member(m, name), member(m, alias)) {
        (Some(v), None) => Some(v),
        (None, Some(v)) => Some(v),
        _ => None,
    }
}

/// The whole number a JSON number text writes, if it writes one.
pub open spec fn int_text(t: Seq<char>) -> Option<int> {
    if t.len() > 0 && t[0] == '-' {
        let b = t.drop_first();
        if b.len() > 0 && all_digits(b) {
            Some(-(digits_value(b) as int))
        } else {
            None
        }
    } else if t.len() > 0 && all_digits(t) {
        Some(digits_value(t) as int)
    } else {
        None
    }
}

/// A number that fits in an `i64`.
pub open spec fn json_i64(j: Option<Json>) -> Option<i64> {
    match j {
        Some(Json::Number(t)) => match int_text(t@) {
            Some(v) => if i64::MIN <= v <= i64::MAX { Some(v as i64) } else { None },
            None => None,
        },
        _ => None,
    }
}

pub open spec fn timestamp_of(j: Option<Json>) -> Option<QmpTimestamp> {
    match j {
        Some(Json::Object(ts)) => match (json_i64(member(ts@, "seconds"@)), json_i64(member(ts@, "microseconds"@))) {
            (Some(s), Some(u)) => Some(QmpTimestamp { seconds: s, microseconds: u }),
            _ => None,
        },
        _ => None,
    }
}

pub open spec fn error_of(j: Option<Json>) -> Option<QmpError> {
    match j {
        Some(Json::Object(em)) => match (member(em@, "class"@), member(em@, "desc"@)) {
            (Some(Json::Text(c)), Some(Json::Text(d))) => Some(QmpError { class: c, desc: d }),
            _ => None,
        },
        _ => None,
    }
}

/// Optional event data: absent or null is none.
pub open spec fn data_of(j: Option<Json>) -> Option<Json> {
    match j {
        Some(Json::Null) => None,
        other => other,
    }
}

pub open spec fn greeting_of(m: Seq<(String, Json)>) -> Option<QmpMessage> {
    match either_field(m, "qmp"@, "QMP"@) {
        Some(v) => Some(QmpMessage::Greeting { qmp: v }),
        None => None,
    }
}

pub open spec fn command_of(m: Seq<(String, Json)>) -> Option<QmpMessage> {
    match (id_field(m), member(m, "execute"@), member(m, "arguments"@)) {
        (Some(id), Some(Json::Text(e)), Some(a)) => Some(QmpMessage::Command { id: id, execute: e, arguments: a }),
        _ => None,
    }
}

pub open spec fn event_of(m: Seq<(String, Json)>) -> Option<QmpMessage> {
    match (member(m, "event"@), timestamp_of(member(m, "timestamp"@))) {
        (Some(Json::Text(e)), Some(t)) => Some(QmpMessage::Event { event: e, data: data_of(member(m, "data"@)), timestamp: t }),
        _ => None,
    }
}

pub open spec fn success_of(m: Seq<(String, Json)>) -> Option<QmpMessage> {
    match (id_field(m), either_field(m, "return"@, "ret"@)) {
        (Some(id), Some(r)) => Some(QmpMessage::Success { id: id, ret: r }),
        _ => None,
    }
}

pub open spec fn failure_of(m: Seq<(String, Json)>) -> Option<QmpMessage> {
    match (id_field(m), error_of(member(m, "error"@))) {
        (Some(id), Some(e)) => Some(QmpMessage::Error { id: id, error: e }),
        _ => None,
    }
}

pub open spec fn first_of(a: Option<QmpMessage>, b: Option<QmpMessage>) -> Option<QmpMessage> {
    if a is Some { a } else { b }
}

/// The message a JSON value is: an object whose members fit one of the
/// shapes, tried in order; members of no shape are ignored.
pub open spec fn qmp_decode(j: Json) -> Option<QmpMessage> {
    match j {
        Json::Object(ms) => first_of(greeting_of(ms@), first_of(command_of(ms@), first_of(event_of(ms@),
            first_of(success_of(ms@), failure_of(ms@))))),
        _ => None,
    }
}

/// A signed whole number as JSON writes it.
pub open spec fn signed_decimal(v: i64) -> Seq<char> {
    if v < 0 { "-"@ + decimal((-(v as int)) as nat) } else { decimal(v as nat) }
}

/// The optional `id` member a message is written with.
pub open spec fn id_entry(id: Option<String>) -> Seq<(Seq<char>, Json)> {
    match id {
        Some(i) => seq![("id"@, Json::Text(i))],
        None => Seq::empty(),
    }
}

/// Whether `j` is the JSON a message is written as: its members in the
/// order of its fields, an absent id, null arguments and absent data left
/// out.
pub open spec fn qmp_encoded(m: QmpMessage, j: Json) -> bool {
    match j {
        Json::Object(ms) => match m {
            QmpMessage::Greeting { qmp } => entries(ms@) == seq![("qmp"@, qmp)],
            QmpMessage::Command { id, execute, arguments } => entries(ms@) == id_entry(id)
                + seq![("execute"@, Json::Text(execute))]
                + (if arguments is Null { Seq::empty() } else { seq![("arguments"@, arguments)] }),
            QmpMessage::Success { id, ret } => entries(ms@) == id_entry(id) + seq![("ret"@, ret)],
            QmpMessage::Error { id, error } => {
                &&& entries(ms@).len() == id_entry(id).len() + 1
                &&& entries(ms@).take(id_entry(id).len() as int) == id_entry(id)
                &&& entries(ms@).last().0 == "error"@
                &&& entries(ms@).last().1 matches Json::Object(em)
                &&& entries(em@) == seq![("class"@, Json::Text(error.class)), ("desc"@, Json::Text(error.desc))]
            },
            QmpMessage::Event { event, data, timestamp } => {
                let head = seq![("event"@, Json::Text(event))] + (match data {
                    Some(d) => seq![("data"@, d)],
                    None => Seq::empty(),
                });
                &&& entries(ms@).len() == head.len() + 1
                &&& entries(ms@).take(head.len() as int) == head
                &&& entries(ms@).last().0 == "timestamp"@
                &&& entries(ms@).last().1 matches Json::Object(ts)
                &&& ts@.len() == 2
                &&& ts@[0].0@ == "seconds"@
                &&& ts@[0].1 matches Json::Number(s) && s@ == signed_decimal(timestamp.seconds)
                &&& ts@[1].0@ == "microseconds"@
                &&& ts@[1].1 matches Json::Number(u) && u@ == signed_decimal(timestamp.microseconds)
            },
        },
        _ => false,
    }
}

/// Reads a number that fits in an `i64`.
fn read_i64(j: Option<&Json>) -> (r: Option<i64>)
    ensures
        r == json_i64(match j { Some(v) => Some(*v), None => None }),
{
    let t = match j {
        Some(Json::Number(t)) => t.as_str(),
        _ => return None,
    };
    let n = t.unicode_len();
    if n == 0 {
        return None;
    }
    if t.get_char(0) == '-' {
        let body = t.substring_char(1, n);
        proof { assert(body@ =~= t@.drop_first()); }
        if body.unicode_len() == 0 {
            return None;
        }
        let c = body.get_char(0);
        if !('0' <= c && c <= '9') {
            proof { assert(!is_digit(body@[0])); }
            return None;
        }
        match parse_unsigned_text(body, 9223372036854775808u64) {
            Some(v) => {
                if v == 9223372036854775808u64 {
                    Some(i64::MIN)
                } else {
                    let w = v as i64;
                    Some(-w)
                }
            },
            None => None,
        }
    } else {
        let c = t.get_char(0);
        if !('0' <= c && c <= '9') {
            proof { assert(!is_digit(t@[0])); }
            return None;
        }
        match parse_unsigned_text(t, 9223372036854775807u64) {
            Some(v) => Some(v as i64),
            None => None,
        }
    }
}

/// A signed whole number as JSON writes it.
fn signed_text(v: i64) -> (r: String)
    ensures
        r@ == signed_decimal(v),
{
    if v < 0 {
        let magnitude: u64 = if v == i64::MIN { 9223372036854775808u64 } else { (-v) as u64 };
        let mut r = String::from_str("-");
        r.append(decimal_string(magnitude).as_str());
        r
    } else {
        decimal_string(v as u64)
    }
}

fn read_id(ms: &Vec<(String, Json)>) -> (r: bool)
    ensures
        r == id_field(ms@) is Some,
{
    match member_ref(ms, "id") {
        None => true,
        Some(Json::Null) => true,
        Some(Json::Text(_)) => true,
        Some(_) => false,
    }
}

fn take_id(ms: &mut Vec<(String, Json)>) -> (r: Option<String>)
    requires
        id_field(old(ms)@) is Some,
    ensures
        Some(r) == id_field(old(ms)@),
        forall|k: Seq<char>| k != "id"@ ==> #[trigger] member(final(ms)@, k) == member(old(ms)@, k),
{
    match take_member(ms, "id") {
        Some(Json::Text(s)) => Some(s),
        _ => None,
    }
}

fn is_text(j: Option<&Json>) -> (r: bool)
    ensures
        r == (match j { Some(v) => v is Text, None => false }),
{
    match j {
        Some(Json::Text(_)) => true,
        _ => false,
    }
}

fn take_text(ms: &mut Vec<(String, Json)>, key: &str) -> (r: String)
    requires
        member(old(ms)@, key@) matches Some(Json::Text(_)),
    ensures
        member(old(ms)@, key@) == Some(Json::Text(r)),
        forall|k: Seq<char>| k != key@ ==> #[trigger] member(final(ms)@, k) == member(old(ms)@, k),
{
    match take_member(ms, key) {
        Some(Json::Text(s)) => s,
        _ => String::new(),
    }
}

fn take_present(ms: &mut Vec<(String, Json)>, key: &str) -> (r: Json)
    requires
        member(old(ms)@, key@) is Some,
    ensures
        member(old(ms)@, key@) == Some(r),
        forall|k: Seq<char>| k != key@ ==> #[trigger] member(final(ms)@, k) == member(old(ms)@, k),
{
    match take_member(ms, key) {
        Some(v) => v,
        None => Json::Null,
    }
}

fn read_timestamp(j: Option<&Json>) -> (r: Option<QmpTimestamp>)
    ensures
        r == timestamp_of(match j { Some(v) => Some(*v), None => None }),
{
    match j {
        Some(Json::Object(ts)) => {
            let s = read_i64(member_ref(ts, "seconds"));
            let u = read_i64(member_ref(ts, "microseconds"));
            match (s, u) {
                (Some(seconds), Some(microseconds)) => Some(QmpTimestamp { seconds, microseconds }),
                _ => None,
            }
        },
        _ => None,
    }
}

fn valid_error(j: Option<&Json>) -> (r: bool)
    ensures
        r == error_of(match j { Some(v) => Some(*v), None => None }) is Some,
{
    match j {
        Some(Json::Object(em)) => is_text(member_ref(em, "class")) && is_text(member_ref(em, "desc")),
        _ => false,
    }
}

fn either_present(ms: &Vec<(String, Json)>, name: &str, alias: &str) -> (r: bool)
    ensures
        r == either_field(ms@, name@, alias@) is Some,
{
    member_ref(ms, name).is_some() != member_ref(ms, alias).is_some()
}

fn take_either(ms: &mut Vec<(String, Json)>, name: &str, alias: &str) -> (r: Json)
    requires
        either_field(old(ms)@, name@, alias@) is Some,
    ensures
        either_field(old(ms)@, name@, alias@) == Some(r),
{
    if member_ref(ms, name).is_some() {
        take_present(ms, name)
    } else {
        take_present(ms, alias)
    }
}

impl QmpMessage {
    /// The message a JSON value is, if it fits one of the shapes.
    pub fn from_json(j: Json) -> (r: Option<QmpMessage>)
        ensures
            r == qmp_decode(j),
    {
        proof {
            reveal_strlit("id"); reveal_strlit("qmp"); reveal_strlit("QMP"); reveal_strlit("execute");
            reveal_strlit("arguments"); reveal_strlit("event"); reveal_strlit("data"); reveal_strlit("timestamp");
            reveal_strlit("return"); reveal_strlit("ret"); reveal_strlit("error");
        }
        let mut ms = match j {
            Json::Object(ms) => ms,
            _ => return None,
        };
        let ghost m = ms@;
        if either_present(&ms, "qmp", "QMP") {
            let v = take_either(&mut ms, "qmp", "QMP");
            return Some(QmpMessage::Greeting { qmp: v });
        }
        assert(greeting_of(m) is None);
        if read_id(&ms) && is_text(member_ref(&ms, "execute")) && member_ref(&ms, "arguments").is_some() {
            let id = take_id(&mut ms);
            assert("execute"@ != "id"@) by { assert("execute"@.len() != "id"@.len()); }
            assert("arguments"@ != "id"@) by { assert("arguments"@.len() != "id"@.len()); }
            let execute = take_text(&mut ms, "execute");
            assert("arguments"@ != "execute"@) by { assert("arguments"@.len() != "execute"@.len()); }
            let arguments = take_present(&mut ms, "arguments");
            return Some(QmpMessage::Command { id, execute, arguments });
        }
        assert(command_of(m) is None);
        if is_text(member_ref(&ms, "event")) && read_timestamp(member_ref(&ms, "timestamp")).is_some() {
            let timestamp = match read_timestamp(member_ref(&ms, "timestamp")) {
                Some(t) => t,
                None => return None,
            };
            let event = take_text(&mut ms, "event");
            assert("data"@ != "event"@) by { assert("data"@.len() != "event"@.len()); }
            let data = match take_member(&mut ms, "data") {
                Some(Json::Null) => None,
                other => other,
            };
            return Some(QmpMessage::Event { event, data, timestamp });
        }
        assert(event_of(m) is None);
        if read_id(&ms) && either_present(&ms, "return", "ret") {
            let id = take_id(&mut ms);
            assert("return"@ != "id"@) by { assert("return"@.len() != "id"@.len()); }
            assert("ret"@ != "id"@) by { assert("ret"@.len() != "id"@.len()); }
            let ret = take_either(&mut ms, "return", "ret");
            return Some(QmpMessage::Success { id, ret });
        }
        assert(success_of(m) is None);
        if read_id(&ms) && valid_error(member_ref(&ms, "error")) {
            let id = take_id(&mut ms);
            assert("error"@ != "id"@) by { assert("error"@.len() != "id"@.len()); }
            let mut em = match take_member(&mut ms, "error") {
                Some(Json::Object(em)) => em,
                _ => return None,
            };
            proof { reveal_strlit("class"); reveal_strlit("desc"); }
            let class = take_text(&mut em, "class");
            assert("desc"@ != "class"@) by { assert("desc"@.len() != "class"@.len()); }
            let desc = take_text(&mut em, "desc");
            return Some(QmpMessage::Error { id, error: QmpError { class, desc } });
        }
        None
    }

    /// The JSON the message is written as.
    pub fn to_json(self) -> (r: Json)
        ensures
            qmp_encoded(self, r),
    {
        proof {
            reveal_strlit("id"); reveal_strlit("qmp"); reveal_strlit("execute"); reveal_strlit("arguments");
            reveal_strlit("event"); reveal_strlit("data"); reveal_strlit("timestamp"); reveal_strlit("ret");
            reveal_strlit("error"); reveal_strlit("class"); reveal_strlit("desc");
            reveal_strlit("seconds"); reveal_strlit("microseconds");
        }
        let mut ms: Vec<(String, Json)> = Vec::new();
        match self {
            QmpMessage::Greeting { qmp } => {
                ms.push((String::from_str("qmp"), qmp));
                assert(entries(ms@) =~= seq![("qmp"@, qmp)]);
            },
            QmpMessage::Command { id, execute, arguments } => {
                push_id(&mut ms, id);
                ms.push((String::from_str("execute"), Json::Text(execute)));
                let ghost head = ms@;
                match arguments {
                    Json::Null => {},
                    a => {
                        ms.push((String::from_str("arguments"), a));
                    },
                }
                assert(entries(ms@) =~= id_entry(id) + seq![("execute"@, Json::Text(execute))]
                    + (if arguments is Null { Seq::empty() } else { seq![("arguments"@, arguments)] }));
            },
            QmpMessage::Success { id, ret } => {
                push_id(&mut ms, id);
                ms.push((String::from_str("ret"), ret));
                assert(entries(ms@) =~= id_entry(id) + seq![("ret"@, ret)]);
            },
            QmpMessage::Error { id, error } => {
                push_id(&mut ms, id);
                let ghost head = ms@;
                let QmpError { class, desc } = error;
                let mut em: Vec<(String, Json)> = Vec::new();
                em.push((String::from_str("class"), Json::Text(class)));
                em.push((String::from_str("desc"), Json::Text(desc)));
                assert(entries(em@) =~= seq![("class"@, Json::Text(class)), ("desc"@, Json::Text(desc))]);
                ms.push((String::from_str("error"), Json::Object(em)));
                assert(entries(ms@).take(id_entry(id).len() as int) =~= entries(head));
            },
            QmpMessage::Event { event, data, timestamp } => {
                ms.push((String::from_str("event"), Json::Text(event)));
                match data {
                    Some(d) => {
                        ms.push((String::from_str("data"), d));
                    },
                    None => {},
                }
                let ghost head = ms@;
                assert(entries(head) =~= seq![("event"@, Json::Text(event))] + (match data {
                    Some(d) => seq![("data"@, d)],
                    None => Seq::empty(),
                }));
                let mut ts: Vec<(String, Json)> = Vec::new();
                ts.push((String::from_str("seconds"), Json::Number(signed_text(timestamp.seconds))));
                ts.push((String::from_str("microseconds"), Json::Number(signed_text(timestamp.microseconds))));
                ms.push((String::from_str("timestamp"), Json::Object(ts)));
                assert(entries(ms@).take(head.len() as int) =~= entries(head));
            },
        }
        Json::Object(ms)
    }
}

fn push_id(ms: &mut Vec<(String, Json)>, id: Option<String>)
    requires
        old(ms)@.len() == 0,
    ensures
        entries(final(ms)@) == id_entry(id),
{
    proof { reveal_strlit("id"); }
    match id {
        Some(i) => {
            ms.push((String::from_str("id"), Json::Text(i)));
            assert(entries(ms@) =~= id_entry(id));
        },
        None => {
            assert(entries(ms@) =~= id_entry(id));
        },
    }
}

} // verus!
