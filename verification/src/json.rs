use crate::date::{date_text, date_to_text};
use crate::decimal::{decimal_text, decimal_to_text};
use crate::dict::no_entries;
use crate::error::CelError;
use crate::ident::{uuid_text, uuid_to_text};
use crate::key::{key_text, KeyModel};
use crate::text::{base64_encode, base64_text};
use crate::value::{CelValue, ValueModel};
use vstd::prelude::*;

verus! {

/// `serde_json::Value`: a JSON tree, opaque to the proofs.
#[verifier::external_type_specification]
#[verifier::external_body]
pub struct ExJsonValue(serde_json::Value);

/// `serde_json::Map`: the members of a JSON object, opaque to the proofs.
#[verifier::external_type_specification]
#[verifier::external_body]
#[verifier::reject_recursive_types(K)]
#[verifier::reject_recursive_types(V)]
pub struct ExJsonMap<K, V>(serde_json::Map<K, V>);

/// A tree of the interchange format, as far as values lower to it: null,
/// a boolean, an integer number, a text, or an object whose members are
/// named by texts.
pub enum JsonTree {
    Null,
    Bool(bool),
    Number(int),
    Text(Seq<char>),
    Object(Map<Seq<char>, JsonTree>),
}

/// An object's members when it has none.
pub open spec fn no_members() -> Map<Seq<char>, JsonTree> {
    Map::empty()
}

/// The tree that a `serde_json::Value` holds.
pub uninterp spec fn json_tree(v: serde_json::Value) -> JsonTree;

/// The members that a `serde_json::Map` holds, each under its name.
pub uninterp spec fn json_members(m: serde_json::Map<String, serde_json::Value>) -> Map<
    Seq<char>,
    JsonTree,
>;

/// Makes `serde_json::Value::Null`. Not proved: the value holds the null
/// tree.
#[verifier::external_body]
pub(crate) fn json_null() -> (v: serde_json::Value)
    ensures
        json_tree(v) == JsonTree::Null,
{
    serde_json::Value::Null
}

/// `Value::from` on a boolean gives `Value::Bool` of it.
pub assume_specification[ <serde_json::Value as From<bool>>::from ](b: bool) -> (v:
    serde_json::Value)
    ensures
        json_tree(v) == JsonTree::Bool(b),
;

/// `Value::from` on a signed integer gives the number with that value.
pub assume_specification[ <serde_json::Value as From<i64>>::from ](n: i64) -> (v:
    serde_json::Value)
    ensures
        json_tree(v) == JsonTree::Number(n as int),
;

/// `Value::from` on an unsigned integer gives the number with that value.
pub assume_specification[ <serde_json::Value as From<u64>>::from ](n: u64) -> (v:
    serde_json::Value)
    ensures
        json_tree(v) == JsonTree::Number(n as int),
;

/// `Value::from` on a `String` gives `Value::String` of it.
pub assume_specification[ <serde_json::Value as From<String>>::from ](s: String) -> (v:
    serde_json::Value)
    ensures
        json_tree(v) == JsonTree::Text(s@),
;

/// `Value::from` on a map gives `Value::Object` of it.
pub assume_specification[ <serde_json::Value as From<
    serde_json::Map<String, serde_json::Value>,
>>::from ](m: serde_json::Map<String, serde_json::Value>) -> (v: serde_json::Value)
    ensures
        json_tree(v) == JsonTree::Object(json_members(m)),
;

/// `Map::new` gives a map without members.
pub assume_specification[ serde_json::Map::<String, serde_json::Value>::new ]() -> (m:
    serde_json::Map<String, serde_json::Value>)
    ensures
        json_members(m) == no_members(),
;

/// `Map::insert` puts the value under the name, in place of a member that
/// had the name, and returns that member if there was one.
pub assume_specification[ serde_json::Map::<String, serde_json::Value>::insert ](
    m: &mut serde_json::Map<String, serde_json::Value>,
    k: String,
    v: serde_json::Value,
) -> (r: Option<serde_json::Value>)
    ensures
        json_members(*final(m)) == json_members(*old(m)).insert(k@, json_tree(v)),
        r is Some <==> json_members(*old(m)).contains_key(k@),
        r matches Some(p) ==> json_tree(p) == json_members(*old(m))[k@],
;

/// The tree to which a value lowers. Integers and booleans stay what they
/// are; a decimal, a date and an identifier become their canonical text, so
/// that no digit is lost; bytes become their base64 text; a dictionary
/// becomes an object.
pub open spec fn lower(v: ValueModel) -> JsonTree
    decreases v,
{
    match v {
        ValueModel::Dict(e) => JsonTree::Object(lower_entries(e)),
        ValueModel::Int(n) => JsonTree::Number(n as int),
        ValueModel::UInt(n) => JsonTree::Number(n as int),
        ValueModel::Double(d) => JsonTree::Text(decimal_text(d)),
        ValueModel::Text(s) => JsonTree::Text(s),
        ValueModel::Bytes(b) => JsonTree::Text(base64_text(b)),
        ValueModel::Bool(b) => JsonTree::Bool(b),
        ValueModel::Null => JsonTree::Null,
        ValueModel::Date(d) => JsonTree::Text(date_text(d)),
        ValueModel::Uuid(u) => JsonTree::Text(uuid_text(u)),
    }
}

/// The members to which the entries of a dictionary lower: each entry's
/// value, lowered, under the text of its key. Where two keys have the same
/// text, the entry that comes later in the order of keys gives the member.
pub open spec fn lower_entries(e: Seq<(KeyModel, ValueModel)>) -> Map<Seq<char>, JsonTree>
    decreases e,
{
    if e.len() == 0 {
        Map::empty()
    } else {
        lower_entries(e.drop_last()).insert(key_text(e.last().0), lower(e.last().1))
    }
}

/// Some entry's key has the text `t`.
pub open spec fn has_key_text(e: Seq<(KeyModel, ValueModel)>, t: Seq<char>) -> bool {
    exists|i: int| 0 <= i < e.len() && key_text((#[trigger] e[i]).0) == t
}

/// The names of the members to which entries lower are the texts of the
/// entries' keys.
pub proof fn lemma_lower_entries_names(e: Seq<(KeyModel, ValueModel)>, t: Seq<char>)
    ensures
        lower_entries(e).contains_key(t) <==> has_key_text(e, t),
    decreases e.len(),
{
    if e.len() > 0 {
        let front = e.drop_last();
        lemma_lower_entries_names(front, t);
        if has_key_text(e, t) {
            let i = choose|i: int| 0 <= i < e.len() && key_text((#[trigger] e[i]).0) == t;
            if i < e.len() - 1 {
                assert(key_text(front[i].0) == t);
            }
        }
        if has_key_text(front, t) {
            let i = choose|i: int| 0 <= i < front.len() && key_text((#[trigger] front[i]).0) == t;
            assert(key_text(e[i].0) == t);
        }
        if key_text(e.last().0) == t {
            assert(key_text(e[e.len() - 1].0) == t);
        }
    }
}

/// An entry whose key text no later entry shares gives the member of that
/// name: its value, lowered.
pub proof fn lemma_lower_entries_member(e: Seq<(KeyModel, ValueModel)>, i: int)
    requires
        0 <= i < e.len(),
        forall|j: int| i < j < e.len() ==> key_text((#[trigger] e[j]).0) != key_text(e[i].0),
    ensures
        lower_entries(e).contains_key(key_text(e[i].0)),
        lower_entries(e)[key_text(e[i].0)] == lower(e[i].1),
    decreases e.len(),
{
    if i < e.len() - 1 {
        let front = e.drop_last();
        assert forall|j: int| i < j < front.len() implies key_text((#[trigger] front[j]).0)
            != key_text(front[i].0) by {
            assert(key_text(e[j].0) != key_text(e[i].0));
        }
        lemma_lower_entries_member(front, i);
        assert(key_text(e[e.len() - 1].0) != key_text(e[i].0));
    }
}

impl CelValue {
    /// Lowers the value to a tree of the interchange format. Every value
    /// has a tree.
    pub fn to_json(&self) -> (j: serde_json::Value)
        ensures
            json_tree(j) == lower(self@),
        decreases self@,
    {
        match self {
            CelValue::Int(n) => serde_json::Value::from(*n),
            CelValue::UInt(n) => serde_json::Value::from(*n),
            CelValue::Double(d) => serde_json::Value::from(decimal_to_text(d)),
            CelValue::Bool(b) => serde_json::Value::from(*b),
            CelValue::String(s) => serde_json::Value::from((**s).clone()),
            CelValue::Bytes(b) => serde_json::Value::from(base64_encode(b.as_slice())),
            CelValue::Null => json_null(),
            CelValue::Date(d) => serde_json::Value::from(date_to_text(d)),
            CelValue::Uuid(u) => serde_json::Value::from(uuid_to_text(u)),
            CelValue::Dict(m) => {
                let ghost e = m.model();
                let n: usize = m.len();
                let mut res = serde_json::Map::new();
                let mut i: usize = 0;
                assert(e.take(0) =~= no_entries());
                while i < n
                    invariant
                        e == m.model(),
                        self@ == ValueModel::Dict(e),
                        n == e.len(),
                        i <= n,
                        json_members(res) == lower_entries(e.take(i as int)),
                    decreases n - i,
                {
                    let key = m.key_at(i).to_text();
                    let child = m.value_at(i);
                    assert(decreases_to!(self@ => self@->Dict_0));
                    let value = child.to_json();
                    res.insert(key, value);
                    proof {
                        let next = e.take(i as int + 1);
                        assert(next.drop_last() =~= e.take(i as int));
                        assert(next.last() == e[i as int]);
                    }
                    i = i + 1;
                }
                assert(e.take(n as int) =~= e);
                serde_json::Value::from(res)
            },
        }
    }
}

impl TryFrom<CelValue> for serde_json::Value {
    type Error = CelError;

    /// Lowers a value to a tree of the interchange format. Every value has
    /// a tree, so the conversion succeeds on all of them.
    fn try_from(v: CelValue) -> (r: Result<serde_json::Value, CelError>)
        ensures
            r matches Ok(j) && json_tree(j) == lower(v@),
    {
        Ok(v.to_json())
    }
}

impl vstd::std_specs::convert::TryFromSpecImpl<CelValue> for serde_json::Value {
    open spec fn obeys_try_from_spec() -> bool {
        false
    }

    open spec fn try_from_spec(v: CelValue) -> Result<serde_json::Value, CelError> {
        arbitrary()
    }
}

} // verus!
