//! The canonical text of a JSON value: one text for all orders of object keys.

use crate::digest;
use crate::json::{self, Json, JsonModel, JsonNumber, NumberModel};
use crate::text::{self, str_precedes};
use vstd::prelude::*;
use vstd::string::*;

verus! {

/// A decimal digit.
pub open spec fn decimal_digit(d: nat) -> char {
    (0x30 + d) as char
}

/// A natural number in decimal digits, without leading zeros.
pub open spec fn decimal(n: nat) -> Seq<char>
    decreases n,
{
    if n < 10 {
        seq![decimal_digit(n)]
    } else {
        decimal(n / 10).push(decimal_digit(n % 10))
    }
}

/// An integer in decimal digits, with a minus sign in front of a negative one.
pub open spec fn integer_text(n: int) -> Seq<char> {
    if n < 0 {
        seq!['-'] + decimal((-n) as nat)
    } else {
        decimal(n as nat)
    }
}

/// A character inside a JSON string: quotes, backslashes and control characters are
/// escaped, everything else stands as it is.
pub open spec fn json_escape(c: char) -> Seq<char> {
    let p = c as int;
    if c == '"' {
        seq!['\\', '"']
    } else if c == '\\' {
        seq!['\\', '\\']
    } else if p == 0x8 {
        seq!['\\', 'b']
    } else if p == 0x9 {
        seq!['\\', 't']
    } else if p == 0xa {
        seq!['\\', 'n']
    } else if p == 0xc {
        seq!['\\', 'f']
    } else if p == 0xd {
        seq!['\\', 'r']
    } else if p < 0x20 {
        seq!['\\', 'u', '0', '0', digest::hex_digit(p / 16), digest::hex_digit(p % 16)]
    } else {
        seq![c]
    }
}

/// The JSON text of a string: its characters, escaped, between quotes.
pub open spec fn json_string_text(s: Seq<char>) -> Seq<char> {
    seq!['"'] + s.map_values(|c: char| json_escape(c)).flatten() + seq!['"']
}

/// Whether keys stand in ascending order, none twice.
pub open spec fn ascending(keys: Seq<Seq<char>>) -> bool {
    forall|i: int, j: int| 0 <= i < j < keys.len() ==> text::precedes(keys[i], keys[j])
}

/// The keys of a set in ascending order.
pub open spec fn ascending_keys(keys: Set<Seq<char>>) -> Seq<Seq<char>> {
    choose|s: Seq<Seq<char>>| ascending(s) && s.to_set() == keys
}

/// One entry of an object.
pub open spec fn member(key_text: Seq<char>, value_text: Seq<char>) -> Seq<char> {
    key_text + seq![':'] + value_text
}

/// The canonical text of a value: no white space, object entries in ascending
/// order of their keys.
pub open spec fn canonical_text(value: JsonModel) -> Seq<char>
    decreases value, 1int,
{
    match value {
        JsonModel::Null => "null"@,
        JsonModel::Bool(true) => "true"@,
        JsonModel::Bool(false) => "false"@,
        JsonModel::Number(NumberModel::Integer(n)) => integer_text(n),
        JsonModel::Number(NumberModel::Float(t)) => t,
        JsonModel::String(s) => json_string_text(s),
        JsonModel::Array(_) => seq!['['] + text::join(element_texts(value), seq![',']) + seq![']'],
        JsonModel::Object(_) => seq!['{'] + text::join(member_texts(value), seq![',']) + seq!['}'],
    }
}

/// The canonical texts of the items of an array.
pub open spec fn element_texts(value: JsonModel) -> Seq<Seq<char>>
    decreases value, 0int,
{
    match value {
        JsonModel::Array(items) => Seq::new(
            items.len(),
            |i: int|
                if 0 <= i < items.len() {
                    canonical_text(items[i])
                } else {
                    arbitrary()
                },
        ),
        _ => arbitrary(),
    }
}

/// The canonical texts of the entries of an object, in ascending order of keys.
pub open spec fn member_texts(value: JsonModel) -> Seq<Seq<char>>
    decreases value, 0int,
{
    match value {
        JsonModel::Object(map) => {
            let keys = ascending_keys(map.dom());
            Seq::new(
                keys.len(),
                |i: int|
                    if map.dom().contains(keys[i]) {
                        member(json_string_text(keys[i]), canonical_text(map[keys[i]]))
                    } else {
                        arbitrary()
                    },
            )
        },
        _ => arbitrary(),
    }
}

/// Two ascending sequences of the same keys are the same.
pub proof fn lemma_ascending_unique(a: Seq<Seq<char>>, b: Seq<Seq<char>>)
    requires
        ascending(a),
        ascending(b),
        a.to_set() == b.to_set(),
    ensures
        a == b,
    decreases a.len(),
{
    if a.len() == 0 {
        if b.len() > 0 {
            assert(b.to_set().contains(b[0]));
            assert(a.contains(b[0]));
        }
        assert(a == b);
    } else {
        assert(a.to_set().contains(a[0]));
        assert(b.contains(a[0]));
        let j = choose|j: int| 0 <= j < b.len() && b[j] == a[0];
        assert(b.to_set().contains(b[0]));
        assert(a.contains(b[0]));
        let i = choose|i: int| 0 <= i < a.len() && a[i] == b[0];
        if i > 0 {
            assert(text::precedes(a[0], a[i]));
            if j > 0 {
                assert(text::precedes(b[0], b[j]));
                text::lemma_precedes_transitive(a[0], b[0], a[0]);
            }
            text::lemma_precedes_irreflexive(a[0]);
        }
        assert(a[0] == b[0]);
        let x = a.drop_first();
        let y = b.drop_first();
        assert forall|p: int, q: int| 0 <= p < q < x.len() implies text::precedes(x[p], x[q]) by {
            assert(text::precedes(a[p + 1], a[q + 1]));
        }
        assert forall|p: int, q: int| 0 <= p < q < y.len() implies text::precedes(y[p], y[q]) by {
            assert(text::precedes(b[p + 1], b[q + 1]));
        }
        assert forall|k: Seq<char>| x.to_set().contains(k) implies y.to_set().contains(k) by {
            lemma_rest_is_rest(a, b, k);
        }
        assert forall|k: Seq<char>| y.to_set().contains(k) implies x.to_set().contains(k) by {
            lemma_rest_is_rest(b, a, k);
        }
        assert(x.to_set() == y.to_set());
        lemma_ascending_unique(x, y);
        assert(a == seq![a[0]] + x);
        assert(b == seq![b[0]] + y);
    }
}

/// Behind a common first key, one sequence holds what the other holds.
proof fn lemma_rest_is_rest(a: Seq<Seq<char>>, b: Seq<Seq<char>>, key: Seq<char>)
    requires
        ascending(a),
        a.len() > 0,
        b.len() > 0,
        a[0] == b[0],
        a.to_set() == b.to_set(),
        a.drop_first().to_set().contains(key),
    ensures
        b.drop_first().to_set().contains(key),
{
    let x = a.drop_first();
    let i = choose|i: int| 0 <= i < x.len() && x[i] == key;
    assert(a[i + 1] == key);
    assert(text::precedes(a[0], a[i + 1]));
    text::lemma_precedes_irreflexive(key);
    assert(a.contains(key));
    assert(a.to_set().contains(key));
    assert(b.contains(key));
    let j = choose|j: int| 0 <= j < b.len() && b[j] == key;
    assert(j > 0);
    assert(b.drop_first()[j - 1] == key);
}

/// `serde_json::to_string` on a string: it returns the characters between quotes,
/// with the quote, the backslash and the control characters below U+0020 escaped,
/// and does not fail.
#[verifier::external_body]
fn serde_string_text(s: &str) -> (r: Option<String>)
    ensures
        r is Some,
        r->0@ == json_string_text(s@),
{
    serde_json::to_string(s).ok()
}

/// `serde_json::to_string` on an integer that a JSON number holds: it returns the
/// decimal digits, with a minus sign in front of a negative one, and does not fail.
#[verifier::external_body]
fn serde_integer_text(n: i128) -> (r: Option<String>)
    requires
        i64::MIN <= n <= u64::MAX,
    ensures
        r is Some,
        r->0@ == integer_text(n as int),
{
    serde_json::to_string(&n).ok()
}

/// The keys of the entries at the given positions.
pub open spec fn keys_at(entries: Seq<(String, Json)>, order: Seq<usize>) -> Seq<Seq<char>> {
    order.map_values(|i: usize| entries[i as int].0@)
}

/// The positions of the entries in ascending order of their keys.
pub fn key_order(entries: &Vec<(String, Json)>) -> (order: Vec<usize>)
    requires
        json::distinct_keys(entries@),
    ensures
        forall|k: int| 0 <= k < order@.len() ==> (#[trigger] order@[k]) < entries@.len(),
        forall|i: usize| i < entries@.len() ==> #[trigger] order@.contains(i),
        order@.len() == entries@.len(),
        ascending(keys_at(entries@, order@)),
{
    let mut order: Vec<usize> = Vec::new();
    let mut n: usize = 0;
    while n < entries.len()
        invariant
            n <= entries.len(),
            json::distinct_keys(entries@),
            order@.len() == n,
            forall|k: int| 0 <= k < order@.len() ==> (#[trigger] order@[k]) < n,
            forall|i: usize| i < n ==> #[trigger] order@.contains(i),
            ascending(keys_at(entries@, order@)),
        decreases entries.len() - n,
    {
        let mut at: usize = 0;
        while at < order.len() && str_precedes(
            entries[order[at]].0.as_str(),
            entries[n].0.as_str(),
        )
            invariant
                at <= order.len(),
                n < entries.len(),
                order@.len() == n,
                forall|k: int| 0 <= k < order@.len() ==> (#[trigger] order@[k]) < n,
                forall|k: int|
                    0 <= k < at ==> text::precedes(
                        #[trigger] keys_at(entries@, order@)[k],
                        entries@[n as int].0@,
                    ),
            ensures
                at <= order.len(),
                forall|k: int|
                    0 <= k < at ==> text::precedes(
                        #[trigger] keys_at(entries@, order@)[k],
                        entries@[n as int].0@,
                    ),
                at < order.len() ==> !text::precedes(
                    keys_at(entries@, order@)[at as int],
                    entries@[n as int].0@,
                ),
            decreases order.len() - at,
        {
            at += 1;
        }
        let ghost before = order@;
        let ghost old_keys = keys_at(entries@, before);
        let ghost new_key = entries@[n as int].0@;
        order.insert(at, n);
        proof {
            let keys = keys_at(entries@, order@);
            if at < before.len() {
                let there = before[at as int] as int;
                assert(entries@[there].0@ != entries@[n as int].0@);
                text::lemma_precedes_total(old_keys[at as int], new_key);
                assert(text::precedes(new_key, old_keys[at as int]));
            }
            assert forall|p: int, q: int| 0 <= p < q < keys.len() implies text::precedes(
                keys[p],
                keys[q],
            ) by {
                let pp = if p < at { p } else { p - 1 };
                let qq = if q < at { q } else { q - 1 };
                if p == at {
                    assert(keys[p] == new_key);
                    assert(keys[q] == old_keys[q - 1]);
                    if q - 1 > at {
                        assert(text::precedes(old_keys[at as int], old_keys[q - 1]));
                        text::lemma_precedes_transitive(new_key, old_keys[at as int], old_keys[q - 1]);
                    }
                } else if q == at {
                    assert(keys[q] == new_key);
                    assert(keys[p] == old_keys[p]);
                } else {
                    assert(keys[p] == old_keys[pp]);
                    assert(keys[q] == old_keys[qq]);
                    assert(text::precedes(old_keys[pp], old_keys[qq]));
                }
            }
            assert forall|i: usize| i < n + 1 implies #[trigger] order@.contains(i) by {
                if i == n {
                    assert(order@[at as int] == n);
                } else {
                    assert(before.contains(i));
                    let k = choose|k: int| 0 <= k < before.len() && before[k] == i;
                    if k < at {
                        assert(order@[k] == i);
                    } else {
                        assert(order@[k + 1] == i);
                    }
                }
            }
        }
        n += 1;
    }
    order
}

/// The parts with a comma between neighbours, between two brackets.
pub fn bracketed(open: &str, parts: &Vec<String>, close: &str) -> (r: String)
    ensures
        r@ == open@ + text::join(parts.deep_view(), seq![',']) + close@,
{
    let mut r: String = open.to_owned();
    let mut i: usize = 0;
    let ghost views = parts.deep_view();
    assert(r@ == open@ + text::join(views.take(0), seq![',']));
    while i < parts.len()
        invariant
            i <= parts.len(),
            views == parts.deep_view(),
            r@ == open@ + text::join(views.take(i as int), seq![',']),
        decreases parts.len() - i,
    {
        let ghost before = r@;
        if i > 0 {
            r.append(",");
        }
        r.append(parts[i].as_str());
        proof {
            reveal_strlit(",");
            assert(","@ == seq![',']);
            let next = views.take(i + 1);
            assert(next.drop_last() == views.take(i as int));
            assert(next.last() == parts@[i as int]@);
            if i == 0 {
                assert(r@ == open@ + next[0]);
            } else {
                assert(r@ == open@ + (text::join(views.take(i as int), seq![',']) + seq![',']
                    + next.last()));
            }
        }
        i += 1;
    }
    assert(views.take(views.len() as int) == views);
    r.append(close);
    r
}

/// One entry of an object: the key's text, a colon and the value's text.
pub fn member_text(key_text: &str, value_text: &str) -> (r: String)
    ensures
        r@ == member(key_text@, value_text@),
{
    let mut r: String = key_text.to_owned();
    r.append(":");
    r.append(value_text);
    proof {
        reveal_strlit(":");
        assert(":"@ == seq![':']);
    }
    r
}

/// The keys found in order are the ascending keys of the object.
proof fn lemma_order_is_ascending_keys(entries: Vec<(String, Json)>, order: Seq<usize>)
    requires
        forall|k: int| 0 <= k < order.len() ==> (#[trigger] order[k]) < entries@.len(),
        forall|i: usize| i < entries@.len() ==> #[trigger] order.contains(i),
        ascending(keys_at(entries@, order)),
    ensures
        ascending_keys(Json::Object(entries).model()->Object_0.dom()) == keys_at(entries@, order),
{
    let keys = keys_at(entries@, order);
    let dom = Json::Object(entries).model()->Object_0.dom();
    assert forall|key: Seq<char>| keys.to_set().contains(key) implies dom.contains(key) by {
        let k = choose|k: int| 0 <= k < keys.len() && keys[k] == key;
        assert(entries@[order[k] as int].0@ == key);
        assert(json::has_key(entries@, key));
    }
    assert forall|key: Seq<char>| dom.contains(key) implies keys.to_set().contains(key) by {
        assert(json::has_key(entries@, key));
        let i = choose|i: int| 0 <= i < entries@.len() && #[trigger] entries@[i].0@ == key;
        assert(entries.len() == entries@.len());
        assert(i == i as usize as int);
        assert(order.contains(i as usize));
        let k = choose|k: int| 0 <= k < order.len() && order[k] == i as usize;
        assert(keys[k] == key);
    }
    assert(keys.to_set() == dom);
    assert(ascending(keys) && keys.to_set() == dom);
    let chosen = ascending_keys(dom);
    assert(ascending(chosen) && chosen.to_set() == dom);
    lemma_ascending_unique(chosen, keys);
}

/// The canonical texts of the items.
pub open spec fn item_texts(items: Seq<Json>) -> Seq<Seq<char>> {
    items.map_values(|item: Json| canonical_text(item.model()))
}

/// The canonical texts of the entries at the given positions.
pub open spec fn entry_texts(entries: Seq<(String, Json)>, order: Seq<usize>) -> Seq<Seq<char>> {
    order.map_values(
        |i: usize|
            member(
                json_string_text(entries[i as int].0@),
                canonical_text(entries[i as int].1.model()),
            ),
    )
}

/// The canonical texts of the items of an array.
fn canonical_items(items: &Vec<Json>) -> (parts: Vec<String>)
    requires
        forall|i: int| 0 <= i < items@.len() ==> (#[trigger] items@[i]).well_formed(),
    ensures
        parts.deep_view() == item_texts(items@),
    decreases items,
{
    let mut parts: Vec<String> = Vec::new();
    let mut i: usize = 0;
    assert(parts.deep_view() == item_texts(items@.take(0)));
    while i < items.len()
        invariant
            i <= items.len(),
            forall|i: int| 0 <= i < items@.len() ==> (#[trigger] items@[i]).well_formed(),
            parts.deep_view() == item_texts(items@.take(i as int)),
        decreases items.len() - i,
    {
        assert(decreases_to!(items => items@[i as int]));
        let ghost before = parts.deep_view();
        let part: String = canonical_json(&items[i]);
        parts.push(part);
        proof {
            assert(parts.deep_view() == before.push(part@));
            assert(item_texts(items@.take(i + 1)) == item_texts(items@.take(i as int)).push(part@));
        }
        i += 1;
    }
    assert(items@.take(items@.len() as int) == items@);
    parts
}

/// The canonical texts of the entries of an object, in the given order.
fn canonical_entries(entries: &Vec<(String, Json)>, order: &Vec<usize>) -> (parts: Vec<String>)
    requires
        forall|i: int| 0 <= i < entries@.len() ==> (#[trigger] entries@[i]).1.well_formed(),
        forall|k: int| 0 <= k < order@.len() ==> (#[trigger] order@[k]) < entries@.len(),
    ensures
        parts.deep_view() == entry_texts(entries@, order@),
    decreases entries,
{
    let mut parts: Vec<String> = Vec::new();
    let mut k: usize = 0;
    assert(parts.deep_view() == entry_texts(entries@, order@.take(0)));
    while k < order.len()
        invariant
            k <= order.len(),
            forall|i: int| 0 <= i < entries@.len() ==> (#[trigger] entries@[i]).1.well_formed(),
            forall|k: int| 0 <= k < order@.len() ==> (#[trigger] order@[k]) < entries@.len(),
            parts.deep_view() == entry_texts(entries@, order@.take(k as int)),
        decreases order.len() - k,
    {
        let i: usize = order[k];
        assert(entries@[i as int].1.well_formed());
        assert(decreases_to!(entries => entries@[i as int].1));
        let key_text: String = match serde_string_text(entries[i].0.as_str()) {
            Some(t) => t,
            None => "\"\"".to_owned(),
        };
        let value_text: String = canonical_json(&entries[i].1);
        let part: String = member_text(key_text.as_str(), value_text.as_str());
        let ghost before = parts.deep_view();
        parts.push(part);
        proof {
            assert(parts.deep_view() == before.push(part@));
            assert(entry_texts(entries@, order@.take(k + 1)) == entry_texts(
                entries@,
                order@.take(k as int),
            ).push(part@));
        }
        k += 1;
    }
    assert(order@.take(order@.len() as int) == order@);
    parts
}

/// The canonical text of a value.
pub fn canonical_json(value: &Json) -> (r: String)
    requires
        value.well_formed(),
    ensures
        r@ == canonical_text(value.model()),
    decreases value,
{
    match value {
        Json::Null => "null".to_owned(),
        Json::Bool(b) => if *b {
            "true".to_owned()
        } else {
            "false".to_owned()
        },
        Json::Number(JsonNumber::Unsigned(n)) => match serde_integer_text(*n as i128) {
            Some(t) => t,
            None => "null".to_owned(),
        },
        Json::Number(JsonNumber::Negative(n)) => match serde_integer_text(*n as i128) {
            Some(t) => t,
            None => "null".to_owned(),
        },
        Json::Number(JsonNumber::Float(t)) => t.clone(),
        Json::String(s) => match serde_string_text(s.as_str()) {
            Some(t) => t,
            None => "null".to_owned(),
        },
        Json::Array(items) => {
            let parts: Vec<String> = canonical_items(items);
            proof {
                reveal_strlit("[");
                reveal_strlit("]");
                assert("["@ == seq!['[']);
                assert("]"@ == seq![']']);
                assert(parts.deep_view() == element_texts(value.model()));
            }
            bracketed("[", &parts, "]")
        },
        Json::Object(entries) => {
            let order: Vec<usize> = key_order(entries);
            let parts: Vec<String> = canonical_entries(entries, &order);
            proof {
                reveal_strlit("{");
                reveal_strlit("}");
                assert("{"@ == seq!['{']);
                assert("}"@ == seq!['}']);
                lemma_order_is_ascending_keys(*entries, order@);
                let texts = entry_texts(entries@, order@);
                let object = value.model();
                assert forall|k: int| 0 <= k < order@.len() implies #[trigger] texts[k]
                    == member_texts(object)[k] by {
                    json::lemma_object_entry(*entries, order@[k] as int);
                    assert(keys_at(entries@, order@)[k] == entries@[order@[k] as int].0@);
                }
                assert(texts == member_texts(object));
            }
            bracketed("{", &parts, "}")
        },
    }
}

/// Whether two values differ at most in the order of object entries, at any depth.
pub open spec fn same_but_for_key_order(a: Json, b: Json) -> bool
    decreases a,
{
    match (a, b) {
        (Json::Array(x), Json::Array(y)) => {
            &&& x@.len() == y@.len()
            &&& forall|i: int|
                0 <= i < x@.len() ==> same_but_for_key_order(#[trigger] x@[i], y@[i])
        },
        (Json::Object(x), Json::Object(y)) => {
            &&& forall|i: int|
                0 <= i < x@.len() ==> exists|j: int|
                    0 <= j < y@.len() && #[trigger] y@[j].0@ == (#[trigger] x@[i]).0@
                        && same_but_for_key_order(x@[i].1, y@[j].1)
            &&& forall|j: int|
                0 <= j < y@.len() ==> json::has_key(x@, (#[trigger] y@[j]).0@)
        },
        (Json::String(s), Json::String(t)) => s@ == t@,
        (Json::Number(m), Json::Number(n)) => m.model() == n.model(),
        _ => a == b,
    }
}

/// Values that differ only in the order of object entries are the same value.
proof fn lemma_same_value(a: Json, b: Json)
    requires
        a.well_formed(),
        b.well_formed(),
        same_but_for_key_order(a, b),
    ensures
        a.model() == b.model(),
    decreases a,
{
    match (a, b) {
        (Json::Array(x), Json::Array(y)) => {
            assert forall|i: int| 0 <= i < x@.len() implies (#[trigger] x@[i]).model()
                == y@[i].model() by {
                assert(decreases_to!(a => x@[i]));
                assert(y@[i].well_formed());
                lemma_same_value(x@[i], y@[i]);
            }
            assert(a.model()->Array_0 == b.model()->Array_0);
        },
        (Json::Object(x), Json::Object(y)) => {
            let m = a.model()->Object_0;
            let n = b.model()->Object_0;
            assert forall|key: Seq<char>| m.dom().contains(key) implies n.dom().contains(key)
                && m[key] == n[key] by {
                assert(json::has_key(x@, key));
                let i = choose|i: int| 0 <= i < x@.len() && #[trigger] x@[i].0@ == key;
                let e = x@[i];
                let j = choose|j: int|
                    0 <= j < y@.len() && #[trigger] y@[j].0@ == x@[i].0@ && same_but_for_key_order(
                        x@[i].1,
                        y@[j].1,
                    );
                assert(decreases_to!(a => x@[i].1));
                assert(x@[i].1.well_formed() && y@[j].1.well_formed());
                lemma_same_value(x@[i].1, y@[j].1);
                json::lemma_object_entry(x, i);
                json::lemma_object_entry(y, j);
            }
            assert forall|key: Seq<char>| n.dom().contains(key) implies m.dom().contains(key) by {
                assert(json::has_key(y@, key));
                let j = choose|j: int| 0 <= j < y@.len() && #[trigger] y@[j].0@ == key;
                let e = y@[j];
                assert(json::has_key(x@, key));
            }
            assert(m =~= n);
        },
        _ => {},
    }
}

/// The canonical text does not depend on the order of object entries, at any depth.
pub proof fn law_canonical_text_ignores_key_order(a: Json, b: Json)
    requires
        a.well_formed(),
        b.well_formed(),
        same_but_for_key_order(a, b),
    ensures
        canonical_text(a.model()) == canonical_text(b.model()),
{
    lemma_same_value(a, b);
}

} // verus!
