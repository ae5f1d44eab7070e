//! JSON values and their canonical text.

use crate::canonical::{
    ascending_keys, canonical_json, canonical_text, element_texts, json_escape,
    json_string_text, lemma_ascending_unique, member_texts,
};
use crate::json::{self, Json, JsonModel, JsonNumber, JsonObject, NumberModel};
use crate::json_text::{self, digits_value, lemma_ascending_keys, lemma_decimal, natural_denotes};
use crate::laws::text::{comes_first, first_difference};
use crate::text::{self, join, precedes};
use vstd::prelude::*;

verus! {

/// The canonical text of a value that holds no other: the name of a constant, the digits of an
/// integer behind a minus sign if it is negative, and a number with a fraction as it is
/// printed. It is a text of the value alone.
pub proof fn law_canonical_scalars(value: &Json, r: String)
    requires
        value.well_formed(),
        call_ensures(canonical_json, (value,), r),
    ensures
        r@ == canonical_text(value.model()),
        value is Null ==> r@ == "null"@,
        value matches Json::Bool(b) ==> r@ == if *b {
            "true"@
        } else {
            "false"@
        },
        value matches Json::Number(JsonNumber::Float(text)) ==> r@ == text@,
        value matches Json::Number(JsonNumber::Unsigned(n)) ==> natural_denotes(r@, n as int),
        value matches Json::Number(JsonNumber::Negative(n)) ==> n < 0 ==> r@[0] == '-'
            && natural_denotes(r@.skip(1), -n),
{
    match value {
        Json::Number(JsonNumber::Unsigned(n)) => {
            lemma_decimal(*n as nat);
        },
        Json::Number(JsonNumber::Negative(n)) => {
            if *n < 0 {
                lemma_decimal((-n) as nat);
                assert(r@.skip(1) =~= crate::canonical::decimal((-n) as nat));
            }
        },
        _ => {},
    }
}

/// The number that digits stand for grows by a digit at its end.
pub proof fn law_digits(t: Seq<char>, c: char)
    ensures
        digits_value(Seq::empty()) == 0,
        digits_value(t.push(c)) == 10 * digits_value(t) + (c as int - 0x30),
{
    assert(t.push(c).drop_last() =~= t);
}

/// A string that needs no escapes stands as it is between quotes, and every string is written
/// character by character: a quote, a backslash and the control characters that have one by
/// their short escape, and other control characters by their number.
pub proof fn law_canonical_strings(s: Seq<char>, c: char)
    ensures
        json_string_text(Seq::empty()) == seq!['"', '"'],
        json_string_text(s.push(c)) == json_string_text(s).drop_last() + json_escape(c) + seq!['"'],
        json_text::char_denotes(json_escape(c), c),
        ({
            let p = c as int;
            let short = c == '"' || c == '\\' || p == 0x8 || p == 0x9 || p == 0xa || p == 0xc || p
                == 0xd;
            &&& p >= 0x20 && !short ==> json_escape(c) == seq![c]
            &&& short ==> json_escape(c).len() == 2
            &&& p < 0x20 && !short ==> json_escape(c).len() == 6
        }),
        canonical_text(JsonModel::String(s)) == json_string_text(s),
{
    assert(json_string_text(Seq::empty()) =~= seq!['"', '"']);
    lemma_escaped_push(s, c);
    json_text::lemma_escape(c);
    let body = s.map_values(|c: char| json_escape(c)).flatten();
    assert(json_string_text(s).drop_last() =~= seq!['"'] + body);
    assert(json_string_text(s.push(c)) =~= json_string_text(s).drop_last() + json_escape(c)
        + seq!['"']);
}

/// The escaped characters of a longer string.
proof fn lemma_escaped_push(s: Seq<char>, c: char)
    ensures
        s.push(c).map_values(|c: char| json_escape(c)).flatten() == s.map_values(
            |c: char| json_escape(c),
        ).flatten() + json_escape(c),
    decreases s.len(),
{
    let all = s.push(c).map_values(|c: char| json_escape(c));
    if s.len() == 0 {
        assert(all.drop_first() =~= Seq::<Seq<char>>::empty());
        assert(all.first() == json_escape(c));
        assert(all.drop_first().flatten() =~= Seq::<char>::empty());
        assert(all.flatten() =~= json_escape(c));
    } else {
        let rest = s.drop_first();
        let parts = s.map_values(|c: char| json_escape(c));
        lemma_escaped_push(rest, c);
        assert(all.drop_first() =~= rest.push(c).map_values(|c: char| json_escape(c)));
        assert(parts.drop_first() =~= rest.map_values(|c: char| json_escape(c)));
        assert(all.first() == parts.first());
        assert(all.flatten() =~= parts.flatten() + json_escape(c));
    }
}

/// What stands in front of one more part of a list.
pub open spec fn comma_behind(count: nat) -> Seq<char> {
    if count == 0 {
        seq![]
    } else {
        seq![',']
    }
}

/// An array is written item by item, in its order, with a comma between neighbours.
pub proof fn law_canonical_arrays(items: Seq<JsonModel>, item: JsonModel)
    ensures
        canonical_text(JsonModel::Array(Seq::empty())) == seq!['[', ']'],
        canonical_text(JsonModel::Array(items.push(item))) == canonical_text(
            JsonModel::Array(items),
        ).drop_last() + comma_behind(items.len()) + canonical_text(item) + seq![']'],
{
    let (a, b) = (JsonModel::Array(items), JsonModel::Array(items.push(item)));
    let empty = JsonModel::Array(Seq::empty());
    assert(element_texts(empty) =~= Seq::<Seq<char>>::empty());
    assert(canonical_text(empty) =~= seq!['[', ']']);
    assert(element_texts(b) =~= element_texts(a).push(canonical_text(item)));
    lemma_longer_list('[', element_texts(a), canonical_text(item), ']');
}

/// A bracketed list with one more part.
proof fn lemma_longer_list(open: char, parts: Seq<Seq<char>>, part: Seq<char>, close: char)
    ensures
        seq![open] + join(parts.push(part), seq![',']) + seq![close] == (seq![open] + join(
            parts,
            seq![','],
        ) + seq![close]).drop_last() + comma_behind(parts.len()) + part + seq![close],
{
    let more = parts.push(part);
    assert(more.drop_last() =~= parts);
    let front = seq![open] + join(parts, seq![',']);
    assert((front + seq![close]).drop_last() =~= front);
    if parts.len() == 0 {
        assert(join(parts, seq![',']) =~= Seq::<char>::empty());
        assert(join(more, seq![',']) == part);
    }
    assert(seq![open] + join(more, seq![',']) + seq![close] =~= front + comma_behind(parts.len())
        + part + seq![close]);
}

/// An object is written entry by entry in the order of its keys: an entry whose key comes behind
/// all others is written behind them, as its key, a colon and its value.
pub proof fn law_canonical_objects(
    map: Map<Seq<char>, JsonModel>,
    key: Seq<char>,
    value: JsonModel,
)
    requires
        map.dom().finite(),
        forall|k: Seq<char>| #[trigger]
            map.dom().contains(k) ==> exists|n: int|
                first_difference(k, key, n) && comes_first(k, key, n),
    ensures
        canonical_text(JsonModel::Object(Map::empty())) == seq!['{', '}'],
        canonical_text(JsonModel::Object(map.insert(key, value))) == canonical_text(
            JsonModel::Object(map),
        ).drop_last() + comma_behind(map.dom().len()) + json_string_text(key) + seq![':']
            + canonical_text(value) + seq!['}'],
{
    let (a, b) = (JsonModel::Object(map), JsonModel::Object(map.insert(key, value)));
    let empty = JsonModel::Object(Map::empty());
    let none = Map::<Seq<char>, JsonModel>::empty().dom();
    lemma_ascending_keys(none);
    if ascending_keys(none).len() > 0 {
        assert(none.contains(ascending_keys(none)[0]));
    }
    assert(member_texts(empty) =~= Seq::<Seq<char>>::empty());
    assert(canonical_text(empty) =~= seq!['{', '}']);
    let keys = ascending_keys(map.dom());
    let more = map.insert(key, value);
    lemma_ascending_keys(map.dom());
    lemma_ascending_keys(more.dom());
    assert forall|i: int| 0 <= i < keys.len() implies precedes(#[trigger] keys[i], key) by {
        assert(map.dom().contains(keys[i]));
        crate::laws::text::lemma_order(keys[i], key);
    }
    if map.dom().contains(key) {
        assert(keys.to_set().contains(key));
        let i = choose|i: int| 0 <= i < keys.len() && keys[i] == key;
        text::lemma_precedes_irreflexive(key);
    }
    let longer = keys.push(key);
    assert forall|i: int, j: int| 0 <= i < j < longer.len() implies precedes(
        longer[i],
        longer[j],
    ) by {
        if j < keys.len() {
            assert(precedes(keys[i], keys[j]));
        }
    }
    assert forall|k: Seq<char>| longer.to_set().contains(k) <==> more.dom().contains(k) by {
        if longer.to_set().contains(k) {
            let i = choose|i: int| 0 <= i < longer.len() && longer[i] == k;
            if i < keys.len() {
                assert(map.dom().contains(keys[i]));
            }
        }
        if more.dom().contains(k) {
            if k == key {
                assert(longer[keys.len() as int] == k);
            } else {
                assert(keys.to_set().contains(k));
                let i = choose|i: int| 0 <= i < keys.len() && keys[i] == k;
                assert(longer[i] == k);
            }
        }
    }
    assert(longer.to_set() =~= more.dom());
    lemma_ascending_unique(ascending_keys(more.dom()), longer);
    let entry = crate::canonical::member(json_string_text(key), canonical_text(value));
    assert forall|i: int| 0 <= i < longer.len() implies #[trigger] member_texts(b)[i]
        == member_texts(a).push(entry)[i] by {
        if i < keys.len() {
            assert(map.dom().contains(keys[i]));
            assert(keys[i] != key);
        }
    }
    assert(member_texts(b) =~= member_texts(a).push(entry));
    lemma_longer_list('{', member_texts(a), entry, '}');
    assert forall|i: int, j: int| 0 <= i < keys.len() && 0 <= j < keys.len() && i != j implies keys[i]
        != keys[j] by {
        if i < j {
            assert(precedes(keys[i], keys[j]));
        } else {
            assert(precedes(keys[j], keys[i]));
        }
        text::lemma_precedes_irreflexive(keys[i]);
    }
    keys.unique_seq_to_set();
    assert(keys.len() == map.dom().len());
    let front = canonical_text(a).drop_last() + comma_behind(map.dom().len());
    assert(front + entry + seq!['}'] =~= front + json_string_text(key) + seq![':'] + canonical_text(
        value,
    ) + seq!['}']);
}

/// A value is the value that it was made of, and an array of strings holds them in their order.
pub proof fn law_values_are_what_they_are_made_of(
    s: &str,
    n: i64,
    m: u64,
    items: &Vec<String>,
    of_text: Json,
    of_integer: Json,
    of_unsigned: Json,
    of_items: Json,
    i: int,
)
    requires
        call_ensures(Json::text, (s,), of_text),
        call_ensures(Json::integer, (n,), of_integer),
        call_ensures(Json::unsigned, (m,), of_unsigned),
        call_ensures(Json::text_array, (items,), of_items),
    ensures
        of_text.model() == JsonModel::String(s@),
        of_integer.model() == JsonModel::Number(NumberModel::Integer(n as int)),
        of_unsigned.model() == JsonModel::Number(NumberModel::Integer(m as int)),
        of_items.model() matches JsonModel::Array(models) && models.len() == items@.len() && (0 <= i
            < items@.len() ==> models[i] == JsonModel::String(items@[i]@)),
{
    assert(items.deep_view().len() == items@.len());
}

/// What a value is: constants, numbers and strings are themselves, an array is its items in
/// their order, and an object has under each key the value of its entry.
pub proof fn law_what_a_value_is(value: Json, i: int)
    requires
        value.well_formed(),
    ensures
        value is Null ==> value.model() is Null,
        value matches Json::Bool(b) ==> value.model() == JsonModel::Bool(b),
        value matches Json::String(s) ==> value.model() == JsonModel::String(s@),
        value matches Json::Number(JsonNumber::Unsigned(n)) ==> value.model() == JsonModel::Number(
            NumberModel::Integer(n as int),
        ),
        value matches Json::Number(JsonNumber::Negative(n)) ==> value.model() == JsonModel::Number(
            NumberModel::Integer(n as int),
        ),
        value matches Json::Number(JsonNumber::Float(t)) ==> value.model() == JsonModel::Number(
            NumberModel::Float(t@),
        ),
        value matches Json::Array(items) ==> (value.model() matches JsonModel::Array(models)
            && models.len() == items@.len() && (0 <= i < items@.len() ==> models[i]
            == items@[i].model())),
        value matches Json::Object(entries) ==> (value.model() matches JsonModel::Object(map) && (0
            <= i < entries@.len() ==> map.dom().contains(entries@[i].0@) && map[entries@[i].0@]
            == entries@[i].1.model()) && forall|key: Seq<char>| #[trigger]
            map.dom().contains(key) ==> exists|k: int|
                0 <= k < entries@.len() && #[trigger] entries@[k].0@ == key),
{
    match value {
        Json::Object(entries) => {
            if 0 <= i < entries@.len() {
                json::lemma_object_entry(entries, i);
            }
            let map = value.model()->Object_0;
            assert forall|key: Seq<char>| #[trigger] map.dom().contains(key) implies exists|k: int|
                0 <= k < entries@.len() && #[trigger] entries@[k].0@ == key by {
                assert(json::has_key(entries@, key));
            }
        },
        _ => {},
    }
}

/// A member is found under its key and nowhere else, only in an object; only a string has a
/// text, and an object under construction has under each key what was put there last.
pub proof fn law_members_are_found(
    value: &Json,
    key: &str,
    found: Option<&Json>,
    text: Option<&str>,
    object: JsonObject,
    member: Json,
    more: JsonObject,
    built: Json,
    empty: JsonObject,
    other: Seq<char>,
)
    requires
        value.well_formed(),
        call_ensures(Json::get, (value, key), found),
        call_ensures(Json::as_str, (value,), text),
        call_ensures(JsonObject::with, (object, key, member), more),
        call_ensures(JsonObject::build, (more,), built),
        call_ensures(JsonObject::new, (), empty),
    ensures
        found is Some <==> value.model() is Object && value.model()->Object_0.dom().contains(key@),
        found matches Some(v) ==> v.model() == value.model()->Object_0[key@],
        text is Some <==> value.model() is String,
        text matches Some(s) ==> value.model() == JsonModel::String(s@),
        !empty@.dom().contains(other),
        more@.dom().contains(key@) && more@[key@] == member.model(),
        other != key@ ==> (more@.dom().contains(other) <==> object@.dom().contains(other)),
        other != key@ && object@.dom().contains(other) ==> more@[other] == object@[other],
        built.model() == JsonModel::Object(more@),
{
}

} // verus!
