use crate::cel_type::CelType;
use crate::decimal::{decimal_mantissa, decimal_scale};
use crate::dict::{
    ascending, entries_map, has_key, lemma_entries_map_keys, lemma_entries_map_value, lookup,
};
use crate::error::CelError;
use crate::key::{key_tag, KeyModel};
use crate::key_order::{key_lt, lemma_key_lt_asymmetric, lemma_key_lt_irreflexive};
use crate::value::{
    bool_of, date_of, extracted, int_of, is_decimal_of, mismatch, same_entries, same_value, tag,
    text_of, uuid_of, ValueModel,
};
use chrono::NaiveDate;
use rust_decimal::Decimal;
use uuid::Uuid;
use vstd::prelude::*;

verus! {

/// Text that was lifted into a value is extracted from it unchanged.
pub proof fn lemma_round_trip_text(s: Seq<char>)
    ensures
        text_of(ValueModel::Text(s)) == extracted(s),
{
}

/// A signed integer that was lifted into a value is extracted from it
/// unchanged.
pub proof fn lemma_round_trip_int(n: i64)
    ensures
        int_of(ValueModel::Int(n)) == extracted(n),
{
}

/// A decimal that was lifted into a value is extracted from it unchanged:
/// `r` is any outcome that the extraction may have on the lifted decimal.
pub proof fn lemma_round_trip_decimal(d: Decimal, r: Result<Decimal, CelError>)
    requires
        is_decimal_of(ValueModel::Double(d), r),
    ensures
        r == extracted(d),
{
}

/// A date that was lifted into a value is extracted from it unchanged.
pub proof fn lemma_round_trip_date(d: NaiveDate)
    ensures
        date_of(ValueModel::Date(d)) == extracted(d),
{
}

/// A lookup in the empty dictionary gives the null value.
pub proof fn lemma_lookup_empty(k: KeyModel)
    ensures
        lookup(Map::empty(), k) == ValueModel::Null,
{
}

/// After a value was entered under a key, a lookup of that key gives the
/// value, and a lookup of any other key gives what it gave before.
pub proof fn lemma_lookup_after_insert(
    m: Map<KeyModel, ValueModel>,
    k: KeyModel,
    v: ValueModel,
    q: KeyModel,
)
    ensures
        lookup(m.insert(k, v), k) == v,
        q != k ==> lookup(m.insert(k, v), q) == lookup(m, q),
{
}

/// A key that is not among the entries from which a dictionary was built
/// is looked up as the null value.
pub proof fn lemma_lookup_never_entered(entered: Seq<(KeyModel, ValueModel)>, k: KeyModel)
    requires
        !has_key(entered, k),
    ensures
        lookup(entries_map(entered), k) == ValueModel::Null,
{
    lemma_entries_map_keys(entered, k);
}

/// Two ascending sequences of entries that build the same mapping are the
/// same sequence: a dictionary has one representation, whatever the order
/// in which it was filled.
pub proof fn lemma_ascending_unique(
    a: Seq<(KeyModel, ValueModel)>,
    b: Seq<(KeyModel, ValueModel)>,
)
    requires
        ascending(a),
        ascending(b),
        entries_map(a) == entries_map(b),
    ensures
        a == b,
    decreases a.len(),
{
    if a.len() == 0 {
        if b.len() > 0 {
            assert(entries_map(b).contains_key(b.last().0));
        }
        assert(a =~= b);
    } else {
        if b.len() == 0 {
            assert(entries_map(a).contains_key(a.last().0));
        }
        let ka = a.last().0;
        let kb = b.last().0;
        let fa = a.drop_last();
        let fb = b.drop_last();
        assert(entries_map(a).contains_key(ka));
        assert(entries_map(b).contains_key(kb));
        lemma_entries_map_keys(b, ka);
        lemma_entries_map_keys(a, kb);
        let j = choose|j: int| 0 <= j < b.len() && (#[trigger] b[j]).0 == ka;
        let i = choose|i: int| 0 <= i < a.len() && (#[trigger] a[i]).0 == kb;
        if j < b.len() - 1 {
            assert(key_lt(b[j].0, b[b.len() - 1].0));
            if i < a.len() - 1 {
                assert(key_lt(a[i].0, a[a.len() - 1].0));
                lemma_key_lt_asymmetric(ka, kb);
            } else {
                lemma_key_lt_irreflexive(ka);
            }
        }
        assert(ka == kb);
        assert(entries_map(a)[ka] == a.last().1);
        assert(entries_map(b)[kb] == b.last().1);
        assert(a.last() == b.last());
        lemma_front_ascends(a);
        lemma_front_ascends(b);
        assert(entries_map(fa) =~= entries_map(a).remove(ka));
        assert(entries_map(fb) =~= entries_map(b).remove(kb));
        lemma_ascending_unique(fa, fb);
        assert(a =~= fa.push(a.last()));
        assert(b =~= fb.push(b.last()));
    }
}

/// All but the last of ascending entries ascend too, and none of them has
/// the key of the last.
proof fn lemma_front_ascends(e: Seq<(KeyModel, ValueModel)>)
    requires
        ascending(e),
        e.len() > 0,
    ensures
        ascending(e.drop_last()),
        !entries_map(e.drop_last()).contains_key(e.last().0),
{
    let front = e.drop_last();
    assert forall|p: int, q: int| #![trigger front[p], front[q]] 0 <= p < q
        < front.len() implies key_lt(front[p].0, front[q].0) by {
        assert(key_lt(e[p].0, e[q].0));
    }
    lemma_entries_map_keys(front, e.last().0);
    if has_key(front, e.last().0) {
        let p = choose|p: int| 0 <= p < front.len() && (#[trigger] front[p]).0 == e.last().0;
        assert(key_lt(e[p].0, e[e.len() - 1].0));
        lemma_key_lt_irreflexive(e.last().0);
    }
}

/// A key is a signed integer, an unsigned integer, a boolean or text: no
/// key has any of the other six categories.
pub proof fn lemma_key_categories(k: KeyModel)
    ensures
        key_tag(k) == CelType::Int || key_tag(k) == CelType::UInt || key_tag(k) == CelType::Bool
            || key_tag(k) == CelType::String,
        key_tag(k) != CelType::Dict,
        key_tag(k) != CelType::Double,
        key_tag(k) != CelType::Bytes,
        key_tag(k) != CelType::Null,
        key_tag(k) != CelType::Date,
        key_tag(k) != CelType::Uuid,
{
}

/// The extraction of a boolean fails on every value of another category,
/// with the category expected and the category found, and on a boolean
/// value gives its payload.
pub proof fn lemma_bool_extraction(v: ValueModel)
    ensures
        tag(v) != CelType::Bool ==> bool_of(v) == mismatch::<bool>(CelType::Bool, v),
        tag(v) == CelType::Bool ==> bool_of(v) is Ok && v == ValueModel::Bool(bool_of(v)->Ok_0),
{
}

/// The extraction of a signed integer fails on every value of another
/// category, with the category expected and the category found, and on a
/// signed integer value gives its payload.
pub proof fn lemma_int_extraction(v: ValueModel)
    ensures
        tag(v) != CelType::Int ==> int_of(v) == mismatch::<i64>(CelType::Int, v),
        tag(v) == CelType::Int ==> int_of(v) is Ok && v == ValueModel::Int(int_of(v)->Ok_0),
{
}

/// The extraction of text fails on every value of another category, with
/// the category expected and the category found, and on a text value gives
/// its payload.
pub proof fn lemma_text_extraction(v: ValueModel)
    ensures
        tag(v) != CelType::String ==> text_of(v) == mismatch::<Seq<char>>(CelType::String, v),
        tag(v) == CelType::String ==> text_of(v) is Ok && v == ValueModel::Text(text_of(v)->Ok_0),
{
}

/// The extraction of a date fails on every value of another category,
/// with the category expected and the category found, and on a date value
/// gives its payload.
pub proof fn lemma_date_extraction(v: ValueModel)
    ensures
        tag(v) != CelType::Date ==> date_of(v) == mismatch::<NaiveDate>(CelType::Date, v),
        tag(v) == CelType::Date ==> date_of(v) is Ok && v == ValueModel::Date(date_of(v)->Ok_0),
{
}

/// The extraction of an identifier fails on every value of another
/// category, with the category expected and the category found, and on an
/// identifier value gives its payload.
pub proof fn lemma_uuid_extraction(v: ValueModel)
    ensures
        tag(v) != CelType::Uuid ==> uuid_of(v) == mismatch::<Uuid>(CelType::Uuid, v),
        tag(v) == CelType::Uuid ==> uuid_of(v) is Ok && v == ValueModel::Uuid(uuid_of(v)->Ok_0),
{
}

/// The extraction of a decimal fails on every value that is no number,
/// with the category expected and the category found, and on a decimal
/// value gives its payload: `r` is any outcome that the extraction may
/// have on `v`.
pub proof fn lemma_decimal_extraction(v: ValueModel, r: Result<Decimal, CelError>)
    requires
        is_decimal_of(v, r),
    ensures
        tag(v) != CelType::Double && tag(v) != CelType::Int && tag(v) != CelType::UInt ==> r
            == mismatch::<Decimal>(CelType::Double, v),
        tag(v) == CelType::Double ==> r is Ok && v == ValueModel::Double(r->Ok_0),
{
}

/// Numbers widen in one direction only. The extraction of a decimal from
/// an integer value, signed or unsigned, gives a decimal that stands for
/// exactly that integer: `r` is any outcome that it may have. The
/// extraction of an integer from a decimal value is a type mismatch.
pub proof fn lemma_widening_one_way(v: ValueModel, r: Result<Decimal, CelError>, d: Decimal)
    requires
        is_decimal_of(v, r),
    ensures
        v matches ValueModel::Int(n) ==> r is Ok && decimal_mantissa(r->Ok_0) == n
            && decimal_scale(r->Ok_0) == 0,
        v matches ValueModel::UInt(n) ==> r is Ok && decimal_mantissa(r->Ok_0) == n
            && decimal_scale(r->Ok_0) == 0,
        int_of(ValueModel::Double(d)) == mismatch::<i64>(CelType::Int, ValueModel::Double(d)),
{
}

/// Equal values have the same category: a value is never equal to a value
/// of another category, whatever the two hold.
pub proof fn lemma_equal_values_same_category(a: ValueModel, b: ValueModel)
    requires
        same_value(a, b),
    ensures
        tag(a) == tag(b),
{
}

/// Equal dictionaries answer every lookup with equal values.
pub proof fn lemma_equal_dictionaries_equal_lookups(
    x: Seq<(KeyModel, ValueModel)>,
    y: Seq<(KeyModel, ValueModel)>,
    k: KeyModel,
)
    requires
        ascending(x),
        ascending(y),
        same_entries(x, y),
    ensures
        same_value(lookup(entries_map(x), k), lookup(entries_map(y), k)),
{
    lemma_entries_map_keys(x, k);
    lemma_entries_map_keys(y, k);
    if has_key(x, k) {
        let i = choose|i: int| 0 <= i < x.len() && (#[trigger] x[i]).0 == k;
        assert(y[i].0 == k);
        lemma_entries_map_value(x, i);
        lemma_entries_map_value(y, i);
    } else if has_key(y, k) {
        let i = choose|i: int| 0 <= i < y.len() && (#[trigger] y[i]).0 == k;
        assert(x[i].0 == k);
    }
}

} // verus!
