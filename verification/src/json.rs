use vstd::prelude::*;
use crate::text::str_eq;

verus! {

/// A JSON value; numbers keep their text.
#[derive(Debug)]
pub enum Json {
    Null,
    Bool(bool),
    Number(String),
    Text(String),
    Array(Vec<Json>),
    Object(Vec<(String, Json)>),
}

#[verifier::external_type_specification]
#[verifier::external_body]
pub struct ExValue(serde_json::Value);

/// The value `serde_json` parses a text into, if the text is JSON.
pub uninterp spec fn json_parse(text: Seq<char>) -> Option<Json>;

/// Turns a `serde_json::Value` into a `Json`, variant for variant.
#[verifier::external_body]
fn json_from_value(v: serde_json::Value) -> (r: Json) {
    match v {
        serde_json::Value::Null => Json::Null,
        serde_json::Value::Bool(b) => Json::Bool(b),
        serde_json::Value::Number(n) => Json::Number(n.to_string()),
        serde_json::Value::String(s) => Json::Text(s),
        serde_json::Value::Array(a) => Json::Array(a.into_iter().map(json_from_value).collect()),
        serde_json::Value::Object(o) => Json::Object(o.into_iter().map(|(k, v)| (k, json_from_value(v))).collect()),
    }
}

/// Parses `text` with `serde_json::from_str` into a `serde_json::Value` and
/// hands it back as a `Json`. Nothing is claimed about which texts parse;
/// the contract names the value, a function of the text alone.
#[verifier::external_body]
pub(crate) fn parse_json(text: &str) -> (r: Option<Json>)
    ensures
        r == json_parse(text@),
{
    serde_json::from_str::<serde_json::Value>(text).ok().map(json_from_value)
}

/// Turns a `Json` into a `serde_json::Value`, variant for variant; number
/// texts are read back as `serde_json` numbers.
#[verifier::external_body]
fn value_from_json(j: &Json) -> serde_json::Value {
    match j {
        Json::Null => serde_json::Value::Null,
        Json::Bool(b) => serde_json::Value::Bool(*b),
        Json::Number(n) => n.parse::<serde_json::Number>().map(serde_json::Value::Number).unwrap_or(serde_json::Value::Null),
        Json::Text(s) => serde_json::Value::String(s.clone()),
        Json::Array(a) => serde_json::Value::Array(a.iter().map(value_from_json).collect()),
        Json::Object(o) => serde_json::Value::Object(o.iter().map(|(k, v)| (k.clone(), value_from_json(v))).collect()),
    }
}

/// The text `serde_json::to_string` writes for a value.
pub uninterp spec fn json_render(j: Json) -> Seq<char>;

/// Writes `j` as JSON text with `serde_json::to_string`. The contract names
/// the text, a function of the value alone; its exact form is left to
/// `serde_json`.
#[verifier::external_body]
pub(crate) fn render_json(j: &Json) -> (r: String)
    ensures
        r@ == json_render(*j),
{
    serde_json::to_string(&value_from_json(j)).unwrap_or_default()
}

/// The keys of an object's members as text, beside their values.
pub open spec fn entries(members: Seq<(String, Json)>) -> Seq<(Seq<char>, Json)> {
    Seq::new(members.len(), |i: int| (members[i].0@, members[i].1))
}

/// The value of the first member named `key` of an object's members.
pub open spec fn member(members: Seq<(String, Json)>, key: Seq<char>) -> Option<Json>
    decreases members.len(),
{
    if members.len() == 0 {
        None
    } else if members[0].0@ == key {
        Some(members[0].1)
    } else {
        member(members.drop_first(), key)
    }
}

/// The value of a member of `j`, if `j` is an object that has it.
pub open spec fn get(j: Json, key: Seq<char>) -> Option<Json> {
    match j {
        Json::Object(m) => member(m@, key),
        _ => None,
    }
}

/// The text of `j`, if it is one.
pub open spec fn text_of(j: Option<Json>) -> Option<Seq<char>> {
    match j {
        Some(Json::Text(s)) => Some(s@),
        _ => None,
    }
}

/// The texts of an array of texts.
pub open spec fn texts_of(items: Seq<Json>) -> Option<Seq<Seq<char>>>
    decreases items.len(),
{
    if items.len() == 0 {
        Some(Seq::empty())
    } else {
        match (texts_of(items.drop_last()), items.last()) {
            (Some(t), Json::Text(s)) => Some(t.push(s@)),
            _ => None,
        }
    }
}

/// A list of texts that may be left out: missing is empty, anything but an
/// array of texts is an error.
pub open spec fn text_list_or_empty(j: Option<Json>) -> Option<Seq<Seq<char>>> {
    match j {
        None => Some(Seq::empty()),
        Some(Json::Array(items)) => texts_of(items@),
        Some(_) => None,
    }
}

/// Removing a member under another key leaves what a key finds unchanged.
pub proof fn lemma_member_remove(members: Seq<(String, Json)>, i: int, key: Seq<char>)
    requires
        0 <= i < members.len(),
        members[i].0@ != key,
    ensures
        member(members.remove(i), key) == member(members, key),
    decreases members.len(),
{
    if i > 0 {
        assert(members.remove(i)[0] == members[0]);
        if members[0].0@ != key {
            assert(members.remove(i).drop_first() =~= members.drop_first().remove(i - 1));
            lemma_member_remove(members.drop_first(), i - 1, key);
        }
    } else {
        assert(members.remove(0) =~= members.drop_first());
    }
}

/// The position of the first member named `key`.
pub fn find_member(members: &Vec<(String, Json)>, key: &str) -> (r: Option<usize>)
    ensures
        r matches Some(i) ==> i < members@.len() && members@[i as int].0@ == key@
            && member(members@, key@) == Some(members@[i as int].1)
            && forall|k: Seq<char>| k != key@ ==> #[trigger] member(members@.remove(i as int), k) == member(members@, k),
        r is None ==> member(members@, key@) is None,
{
    let mut i: usize = 0;
    assert(members@.skip(0) =~= members@);
    while i < members.len()
        invariant
            0 <= i <= members@.len(),
            member(members@, key@) == member(members@.skip(i as int), key@),
        decreases members@.len() - i,
    {
        assert(members@.skip(i as int)[0] == members@[i as int]);
        if crate::text::str_eq(members[i].0.as_str(), key) {
            proof {
                assert forall|k: Seq<char>| k != key@ implies #[trigger] member(members@.remove(i as int), k) == member(members@, k) by {
                    lemma_member_remove(members@, i as int, k);
                }
            }
            return Some(i);
        }
        assert(members@.skip(i as int).drop_first() =~= members@.skip(i as int + 1));
        i = i + 1;
    }
    assert(members@.skip(i as int).len() == 0);
    None
}

/// The value of the first member named `key`.
pub fn member_ref<'a>(members: &'a Vec<(String, Json)>, key: &str) -> (r: Option<&'a Json>)
    ensures
        r matches Some(v) ==> member(members@, key@) == Some(*v),
        r is None ==> member(members@, key@) is None,
{
    match find_member(members, key) {
        Some(i) => Some(&members[i].1),
        None => None,
    }
}

/// Takes the first member named `key` out of an object's members; what
/// other keys find stays as it was.
pub fn take_member(members: &mut Vec<(String, Json)>, key: &str) -> (r: Option<Json>)
    ensures
        r == member(old(members)@, key@),
        forall|k: Seq<char>| k != key@ ==> #[trigger] member(final(members)@, k) == member(old(members)@, k),
{
    match find_member(members, key) {
        Some(i) => {
            let (_, v) = members.remove(i);
            Some(v)
        },
        None => None,
    }
}

/// Looks up a member of an object.
pub fn get_member<'a>(j: &'a Json, key: &str) -> (r: Option<&'a Json>)
    ensures
        r matches Some(v) ==> get(*j, key@) == Some(*v),
        r is None ==> get(*j, key@) is None,
{
    match j {
        Json::Object(members) => {
            let mut i: usize = 0;
            assert(members@.skip(0) =~= members@);
            while i < members.len()
                invariant
                    0 <= i <= members@.len(),
                    get(*j, key@) == member(members@, key@),
                    member(members@, key@) == member(members@.skip(i as int), key@),
                decreases members@.len() - i,
            {
                assert(members@.skip(i as int)[0] == members@[i as int]);
                if str_eq(members[i].0.as_str(), key) {
                    return Some(&members[i].1);
                }
                assert(members@.skip(i as int).drop_first() =~= members@.skip(i as int + 1));
                i = i + 1;
            }
            assert(members@.skip(i as int).len() == 0);
            None
        },
        _ => None,
    }
}

/// The text of a value, if it is one.
pub fn get_text(j: Option<&Json>) -> (r: Option<String>)
    ensures
        r matches Some(s) ==> (j matches Some(v) && text_of(Some(*v)) == Some(s@)),
        r is None ==> (match j { Some(v) => text_of(Some(*v)) is None, None => true }),
{
    match j {
        Some(Json::Text(s)) => Some(s.clone()),
        _ => None,
    }
}

/// A list of texts that may be left out.
pub fn get_text_list(j: Option<&Json>) -> (r: Option<Vec<String>>)
    ensures
        r matches Some(v) ==> text_list_or_empty(match j { Some(x) => Some(*x), None => None })
            == Some(crate::util::string_views(v@)),
        r is None ==> text_list_or_empty(match j { Some(x) => Some(*x), None => None }) is None,
{
    match j {
        None => {
            let v: Vec<String> = Vec::new();
            assert(crate::util::string_views(v@) =~= Seq::<Seq<char>>::empty());
            Some(v)
        },
        Some(Json::Array(items)) => {
            let mut out: Vec<String> = Vec::new();
            let mut i: usize = 0;
            assert(items@.take(0) =~= Seq::<Json>::empty());
            assert(crate::util::string_views(out@) =~= Seq::<Seq<char>>::empty());
            while i < items.len()
                invariant
                    0 <= i <= items@.len(),
                    text_list_or_empty(match j { Some(x) => Some(*x), None => None }) == texts_of(items@),
                    texts_of(items@.take(i as int)) == Some(crate::util::string_views(out@)),
                decreases items@.len() - i,
            {
                assert(items@.take(i as int + 1).drop_last() =~= items@.take(i as int));
                assert(items@.take(i as int + 1).last() == items@[i as int]);
                match &items[i] {
                    Json::Text(s) => {
                        let ghost prev = out@;
                        out.push(s.clone());
                        assert(crate::util::string_views(out@) =~= crate::util::string_views(prev).push(s@));
                    },
                    _ => {
                        proof { lemma_texts_of_prefix(items@, i as int + 1); }
                        return None;
                    },
                }
                i = i + 1;
            }
            assert(items@.take(i as int) =~= items@);
            Some(out)
        },
        Some(_) => None,
    }
}

/// A list whose prefix is no list of texts is none either.
pub proof fn lemma_texts_of_prefix(items: Seq<Json>, k: int)
    requires
        0 <= k <= items.len(),
        texts_of(items.take(k)) is None,
    ensures
        texts_of(items) is None,
    decreases items.len() - k,
{
    if k < items.len() {
        assert(items.take(k + 1).drop_last() =~= items.take(k));
        lemma_texts_of_prefix(items, k + 1);
    } else {
        assert(items.take(k) =~= items);
    }
}

} // verus!
