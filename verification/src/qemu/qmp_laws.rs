use vstd::prelude::*;
use crate::json::{entries, member, Json};
use crate::qemu::qmp_message::{
    command_of, data_of, either_field, error_of, event_of, failure_of, first_of, greeting_of, id_entry, id_field,
    int_text, json_i64, qmp_decode, qmp_encoded, signed_decimal, success_of, timestamp_of, QmpMessage,
};
use crate::text::{decimal, lemma_decimal_read_back};

verus! {

/// The value of the first entry under `key`, over keys as text.
pub open spec fn entry_value(es: Seq<(Seq<char>, Json)>, key: Seq<char>) -> Option<Json>
    decreases es.len(),
{
    if es.len() == 0 {
        None
    } else if es[0].0 == key {
        Some(es[0].1)
    } else {
        entry_value(es.drop_first(), key)
    }
}

/// What a key finds among members depends on the keys' text and the values
/// alone.
pub proof fn lemma_member_by_entries(ms: Seq<(String, Json)>, key: Seq<char>)
    ensures
        member(ms, key) == entry_value(entries(ms), key),
    decreases ms.len(),
{
    if ms.len() > 0 {
        assert(entries(ms).drop_first() =~= entries(ms.drop_first()));
        lemma_member_by_entries(ms.drop_first(), key);
    }
}

/// A signed number as JSON writes it reads back as itself.
pub proof fn lemma_signed_read_back(v: i64)
    ensures
        int_text(signed_decimal(v)) == Some(v as int),
{
    reveal_strlit("-");
    if v < 0 {
        let n = (-(v as int)) as nat;
        lemma_decimal_read_back(n);
        assert(("-"@ + decimal(n))[0] == '-');
        assert(("-"@ + decimal(n)).drop_first() =~= decimal(n));
    } else {
        lemma_decimal_read_back(v as nat);
        assert(decimal(v as nat)[0] != '-') by {
            assert(crate::text::is_digit(decimal(v as nat)[0]));
        }
    }
}

/// Looking a key up in two runs of entries looks in the first, then in the
/// second.
pub proof fn lemma_entry_value_concat(a: Seq<(Seq<char>, Json)>, b: Seq<(Seq<char>, Json)>, key: Seq<char>)
    ensures
        entry_value(a + b, key) == (if entry_value(a, key) is Some { entry_value(a, key) } else { entry_value(b, key) }),
    decreases a.len(),
{
    if a.len() == 0 {
        assert(a + b =~= b);
    } else {
        assert((a + b).drop_first() =~= a.drop_first() + b);
        lemma_entry_value_concat(a.drop_first(), b, key);
    }
}

/// Looking a key up in one entry.
pub proof fn lemma_entry_value_one(k: Seq<char>, v: Json, key: Seq<char>)
    ensures
        entry_value(seq![(k, v)], key) == (if k == key { Some(v) } else { None }),
{
    reveal_with_fuel(entry_value, 2);
    assert(seq![(k, v)][0] == (k, v));
    assert(seq![(k, v)].drop_first() =~= Seq::<(Seq<char>, Json)>::empty());
}

/// The member names of QMP messages are told apart.
pub proof fn lemma_keys_distinct()
    ensures
        "id"@ != "qmp"@,
        "id"@ != "QMP"@,
        "id"@ != "execute"@,
        "id"@ != "arguments"@,
        "id"@ != "event"@,
        "id"@ != "data"@,
        "id"@ != "timestamp"@,
        "id"@ != "return"@,
        "id"@ != "ret"@,
        "id"@ != "error"@,
        "id"@ != "class"@,
        "id"@ != "desc"@,
        "id"@ != "seconds"@,
        "id"@ != "microseconds"@,
        "qmp"@ != "QMP"@,
        "qmp"@ != "execute"@,
        "qmp"@ != "arguments"@,
        "qmp"@ != "event"@,
        "qmp"@ != "data"@,
        "qmp"@ != "timestamp"@,
        "qmp"@ != "return"@,
        "qmp"@ != "ret"@,
        "qmp"@ != "error"@,
        "qmp"@ != "class"@,
        "qmp"@ != "desc"@,
        "qmp"@ != "seconds"@,
        "qmp"@ != "microseconds"@,
        "QMP"@ != "execute"@,
        "QMP"@ != "arguments"@,
        "QMP"@ != "event"@,
        "QMP"@ != "data"@,
        "QMP"@ != "timestamp"@,
        "QMP"@ != "return"@,
        "QMP"@ != "ret"@,
        "QMP"@ != "error"@,
        "QMP"@ != "class"@,
        "QMP"@ != "desc"@,
        "QMP"@ != "seconds"@,
        "QMP"@ != "microseconds"@,
        "execute"@ != "arguments"@,
        "execute"@ != "event"@,
        "execute"@ != "data"@,
        "execute"@ != "timestamp"@,
        "execute"@ != "return"@,
        "execute"@ != "ret"@,
        "execute"@ != "error"@,
        "execute"@ != "class"@,
        "execute"@ != "desc"@,
        "execute"@ != "seconds"@,
        "execute"@ != "microseconds"@,
        "arguments"@ != "event"@,
        "arguments"@ != "data"@,
        "arguments"@ != "timestamp"@,
        "arguments"@ != "return"@,
        "arguments"@ != "ret"@,
        "arguments"@ != "error"@,
        "arguments"@ != "class"@,
        "arguments"@ != "desc"@,
        "arguments"@ != "seconds"@,
        "arguments"@ != "microseconds"@,
        "event"@ != "data"@,
        "event"@ != "timestamp"@,
        "event"@ != "return"@,
        "event"@ != "ret"@,
        "event"@ != "error"@,
        "event"@ != "class"@,
        "event"@ != "desc"@,
        "event"@ != "seconds"@,
        "event"@ != "microseconds"@,
        "data"@ != "timestamp"@,
        "data"@ != "return"@,
        "data"@ != "ret"@,
        "data"@ != "error"@,
        "data"@ != "class"@,
        "data"@ != "desc"@,
        "data"@ != "seconds"@,
        "data"@ != "microseconds"@,
        "timestamp"@ != "return"@,
        "timestamp"@ != "ret"@,
        "timestamp"@ != "error"@,
        "timestamp"@ != "class"@,
        "timestamp"@ != "desc"@,
        "timestamp"@ != "seconds"@,
        "timestamp"@ != "microseconds"@,
        "return"@ != "ret"@,
        "return"@ != "error"@,
        "return"@ != "class"@,
        "return"@ != "desc"@,
        "return"@ != "seconds"@,
        "return"@ != "microseconds"@,
        "ret"@ != "error"@,
        "ret"@ != "class"@,
        "ret"@ != "desc"@,
        "ret"@ != "seconds"@,
        "ret"@ != "microseconds"@,
        "error"@ != "class"@,
        "error"@ != "desc"@,
        "error"@ != "seconds"@,
        "error"@ != "microseconds"@,
        "class"@ != "desc"@,
        "class"@ != "seconds"@,
        "class"@ != "microseconds"@,
        "desc"@ != "seconds"@,
        "desc"@ != "microseconds"@,
        "seconds"@ != "microseconds"@,
{
    reveal_strlit("id"); reveal_strlit("qmp"); reveal_strlit("QMP"); reveal_strlit("execute"); reveal_strlit("arguments"); reveal_strlit("event"); reveal_strlit("data"); reveal_strlit("timestamp"); reveal_strlit("return"); reveal_strlit("ret"); reveal_strlit("error"); reveal_strlit("class"); reveal_strlit("desc"); reveal_strlit("seconds"); reveal_strlit("microseconds");
    assert("id"@.len() != "qmp"@.len());
    assert("id"@.len() != "QMP"@.len());
    assert("id"@.len() != "execute"@.len());
    assert("id"@.len() != "arguments"@.len());
    assert("id"@.len() != "event"@.len());
    assert("id"@.len() != "data"@.len());
    assert("id"@.len() != "timestamp"@.len());
    assert("id"@.len() != "return"@.len());
    assert("id"@.len() != "ret"@.len());
    assert("id"@.len() != "error"@.len());
    assert("id"@.len() != "class"@.len());
    assert("id"@.len() != "desc"@.len());
    assert("id"@.len() != "seconds"@.len());
    assert("id"@.len() != "microseconds"@.len());
    assert("qmp"@[0] != "QMP"@[0]);
    assert("qmp"@.len() != "execute"@.len());
    assert("qmp"@.len() != "arguments"@.len());
    assert("qmp"@.len() != "event"@.len());
    assert("qmp"@.len() != "data"@.len());
    assert("qmp"@.len() != "timestamp"@.len());
    assert("qmp"@.len() != "return"@.len());
    assert("qmp"@[0] != "ret"@[0]);
    assert("qmp"@.len() != "error"@.len());
    assert("qmp"@.len() != "class"@.len());
    assert("qmp"@.len() != "desc"@.len());
    assert("qmp"@.len() != "seconds"@.len());
    assert("qmp"@.len() != "microseconds"@.len());
    assert("QMP"@.len() != "execute"@.len());
    assert("QMP"@.len() != "arguments"@.len());
    assert("QMP"@.len() != "event"@.len());
    assert("QMP"@.len() != "data"@.len());
    assert("QMP"@.len() != "timestamp"@.len());
    assert("QMP"@.len() != "return"@.len());
    assert("QMP"@[0] != "ret"@[0]);
    assert("QMP"@.len() != "error"@.len());
    assert("QMP"@.len() != "class"@.len());
    assert("QMP"@.len() != "desc"@.len());
    assert("QMP"@.len() != "seconds"@.len());
    assert("QMP"@.len() != "microseconds"@.len());
    assert("execute"@.len() != "arguments"@.len());
    assert("execute"@.len() != "event"@.len());
    assert("execute"@.len() != "data"@.len());
    assert("execute"@.len() != "timestamp"@.len());
    assert("execute"@.len() != "return"@.len());
    assert("execute"@.len() != "ret"@.len());
    assert("execute"@.len() != "error"@.len());
    assert("execute"@.len() != "class"@.len());
    assert("execute"@.len() != "desc"@.len());
    assert("execute"@[0] != "seconds"@[0]);
    assert("execute"@.len() != "microseconds"@.len());
    assert("arguments"@.len() != "event"@.len());
    assert("arguments"@.len() != "data"@.len());
    assert("arguments"@[0] != "timestamp"@[0]);
    assert("arguments"@.len() != "return"@.len());
    assert("arguments"@.len() != "ret"@.len());
    assert("arguments"@.len() != "error"@.len());
    assert("arguments"@.len() != "class"@.len());
    assert("arguments"@.len() != "desc"@.len());
    assert("arguments"@.len() != "seconds"@.len());
    assert("arguments"@.len() != "microseconds"@.len());
    assert("event"@.len() != "data"@.len());
    assert("event"@.len() != "timestamp"@.len());
    assert("event"@.len() != "return"@.len());
    assert("event"@.len() != "ret"@.len());
    assert("event"@[1] != "error"@[1]);
    assert("event"@[0] != "class"@[0]);
    assert("event"@.len() != "desc"@.len());
    assert("event"@.len() != "seconds"@.len());
    assert("event"@.len() != "microseconds"@.len());
    assert("data"@.len() != "timestamp"@.len());
    assert("data"@.len() != "return"@.len());
    assert("data"@.len() != "ret"@.len());
    assert("data"@.len() != "error"@.len());
    assert("data"@.len() != "class"@.len());
    assert("data"@[1] != "desc"@[1]);
    assert("data"@.len() != "seconds"@.len());
    assert("data"@.len() != "microseconds"@.len());
    assert("timestamp"@.len() != "return"@.len());
    assert("timestamp"@.len() != "ret"@.len());
    assert("timestamp"@.len() != "error"@.len());
    assert("timestamp"@.len() != "class"@.len());
    assert("timestamp"@.len() != "desc"@.len());
    assert("timestamp"@.len() != "seconds"@.len());
    assert("timestamp"@.len() != "microseconds"@.len());
    assert("return"@.len() != "ret"@.len());
    assert("return"@.len() != "error"@.len());
    assert("return"@.len() != "class"@.len());
    assert("return"@.len() != "desc"@.len());
    assert("return"@.len() != "seconds"@.len());
    assert("return"@.len() != "microseconds"@.len());
    assert("ret"@.len() != "error"@.len());
    assert("ret"@.len() != "class"@.len());
    assert("ret"@.len() != "desc"@.len());
    assert("ret"@.len() != "seconds"@.len());
    assert("ret"@.len() != "microseconds"@.len());
    assert("error"@[0] != "class"@[0]);
    assert("error"@.len() != "desc"@.len());
    assert("error"@.len() != "seconds"@.len());
    assert("error"@.len() != "microseconds"@.len());
    assert("class"@.len() != "desc"@.len());
    assert("class"@.len() != "seconds"@.len());
    assert("class"@.len() != "microseconds"@.len());
    assert("desc"@.len() != "seconds"@.len());
    assert("desc"@.len() != "microseconds"@.len());
    assert("seconds"@.len() != "microseconds"@.len());
}

/// A message written as JSON reads back as the same message. Left out: a
/// command whose arguments are null and an event whose data is null, whose
/// null member is not written and so cannot be read back.
pub proof fn lemma_qmp_read_back(m: QmpMessage, j: Json)
    requires
        qmp_encoded(m, j),
        !(m matches QmpMessage::Command { arguments: Json::Null, .. }),
        !(m matches QmpMessage::Event { data: Some(Json::Null), .. }),
    ensures
        qmp_decode(j) == Some(m),
{
    reveal_strlit("id"); reveal_strlit("qmp"); reveal_strlit("QMP"); reveal_strlit("execute");
    reveal_strlit("arguments"); reveal_strlit("event"); reveal_strlit("data"); reveal_strlit("timestamp");
    reveal_strlit("return"); reveal_strlit("ret"); reveal_strlit("error"); reveal_strlit("class");
    reveal_strlit("desc"); reveal_strlit("seconds"); reveal_strlit("microseconds");
    reveal_with_fuel(entry_value, 5);
    lemma_keys_distinct();
    let ms = match j {
        Json::Object(ms) => ms@,
        _ => Seq::empty(),
    };
    let es = entries(ms);
    lemma_member_by_entries(ms, "id"@);
    lemma_member_by_entries(ms, "qmp"@);
    lemma_member_by_entries(ms, "QMP"@);
    lemma_member_by_entries(ms, "execute"@);
    lemma_member_by_entries(ms, "arguments"@);
    lemma_member_by_entries(ms, "event"@);
    lemma_member_by_entries(ms, "data"@);
    lemma_member_by_entries(ms, "timestamp"@);
    lemma_member_by_entries(ms, "return"@);
    lemma_member_by_entries(ms, "ret"@);
    lemma_member_by_entries(ms, "error"@);
    match m {
        QmpMessage::Greeting { qmp } => {
            assert("qmp"@ != "QMP"@) by { assert("qmp"@[0] != "QMP"@[0]); }
            lemma_entry_value_one("qmp"@, qmp, "qmp"@);
            lemma_entry_value_one("qmp"@, qmp, "QMP"@);
            assert(greeting_of(ms) == Some(m));
        },
        QmpMessage::Command { id, execute, arguments } => {
            let tail = seq![("execute"@, Json::Text(execute))] + seq![("arguments"@, arguments)];
            assert(es =~= id_entry(id) + tail);
            assert forall|key: Seq<char>| entry_value(es, key) == (if entry_value(id_entry(id), key) is Some {
                entry_value(id_entry(id), key)
            } else if key == "execute"@ {
                Some(Json::Text(execute))
            } else if key == "arguments"@ {
                Some(arguments)
            } else {
                None::<Json>
            }) by {
                lemma_entry_value_concat(id_entry(id), tail, key);
                lemma_entry_value_concat(seq![("execute"@, Json::Text(execute))], seq![("arguments"@, arguments)], key);
                lemma_entry_value_one("execute"@, Json::Text(execute), key);
                lemma_entry_value_one("arguments"@, arguments, key);
                if let Some(i) = id {
                    lemma_entry_value_one("id"@, Json::Text(i), key);
                }
            }
            if let Some(i) = id {
                lemma_entry_value_one("id"@, Json::Text(i), "id"@);
                lemma_entry_value_one("id"@, Json::Text(i), "qmp"@);
                lemma_entry_value_one("id"@, Json::Text(i), "QMP"@);
                lemma_entry_value_one("id"@, Json::Text(i), "execute"@);
                lemma_entry_value_one("id"@, Json::Text(i), "arguments"@);
            }
            assert(greeting_of(ms) is None);
            assert(id_field(ms) == Some(id));
            assert(command_of(ms) == Some(m));
        },
        QmpMessage::Success { id, ret } => {
            assert(greeting_of(ms) is None);
            assert(command_of(ms) is None);
            assert(event_of(ms) is None);
            lemma_entry_value_concat(id_entry(id), seq![("ret"@, ret)], "id"@);
            lemma_entry_value_one("ret"@, ret, "id"@);
            if let Some(i) = id {
                lemma_entry_value_one("id"@, Json::Text(i), "id"@);
            }
            assert(id_field(ms) == Some(id));
            assert(either_field(ms, "return"@, "ret"@) == Some(ret));
            assert(success_of(ms) == Some(m));
        },
        QmpMessage::Error { id, error } => {
            let k = id_entry(id).len() as int;
            assert(es =~= id_entry(id) + seq![es.last()]);
            assert(greeting_of(ms) is None);
            assert(command_of(ms) is None);
            assert(event_of(ms) is None);
            assert(success_of(ms) is None);
            assert(id_field(ms) == Some(id));
            let em = match es.last().1 {
                Json::Object(em) => em@,
                _ => Seq::empty(),
            };
            lemma_member_by_entries(em, "class"@);
            lemma_member_by_entries(em, "desc"@);
            assert(error_of(member(ms, "error"@)) == Some(error));
            assert(failure_of(ms) == Some(m));
        },
        QmpMessage::Event { event, data, timestamp } => {
            let head = seq![("event"@, Json::Text(event))] + (match data {
                Some(d) => seq![("data"@, d)],
                None => Seq::empty(),
            });
            assert(es =~= head + seq![es.last()]);
            assert(greeting_of(ms) is None);
            assert(command_of(ms) is None);
            let ts = match es.last().1 {
                Json::Object(ts) => ts@,
                _ => Seq::empty(),
            };
            lemma_member_by_entries(ts, "seconds"@);
            lemma_member_by_entries(ts, "microseconds"@);
            assert(entries(ts)[0] == (ts[0].0@, ts[0].1));
            assert(entries(ts)[1] == (ts[1].0@, ts[1].1));
            assert(entries(ts).drop_first()[0] == entries(ts)[1]);
            lemma_signed_read_back(timestamp.seconds);
            lemma_signed_read_back(timestamp.microseconds);
            assert(json_i64(member(ts, "seconds"@)) == Some(timestamp.seconds));
            assert(json_i64(member(ts, "microseconds"@)) == Some(timestamp.microseconds));
            assert(timestamp_of(member(ms, "timestamp"@)) == Some(timestamp));
            assert(data_of(member(ms, "data"@)) == data);
            assert(event_of(ms) == Some(m));
        },
    }
}

/// Commands sent as the `a`th and the `b`th of a session carry different
/// ids, so an answer is never taken for the answer to another command.
pub proof fn lemma_command_ids_distinct(a: nat, b: nat)
    requires
        a != b,
    ensures
        decimal(a) != decimal(b),
{
    lemma_decimal_read_back(a);
    lemma_decimal_read_back(b);
}

} // verus!
