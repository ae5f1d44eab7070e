//! What a JSON text denotes, and that a canonical text denotes one value only.

use crate::canonical::{
    ascending, ascending_keys, canonical_text, decimal, decimal_digit, element_texts, integer_text,
    json_escape, json_string_text, member, member_texts,
};
use crate::digest::hex_digit;
use crate::json::{self, Json, JsonModel, JsonNumber, NumberModel};
use crate::text::{self, join, precedes};
use vstd::prelude::*;

verus! {

/// Whether a value holds no floating-point number, at any depth.
pub open spec fn without_floats(value: Json) -> bool
    decreases value,
{
    match value {
        Json::Number(JsonNumber::Float(_)) => false,
        Json::Array(items) => forall|i: int|
            0 <= i < items@.len() ==> without_floats(#[trigger] items@[i]),
        Json::Object(entries) => forall|i: int|
            0 <= i < entries@.len() ==> without_floats((#[trigger] entries@[i]).1),
        _ => true,
    }
}

/// Whether a value holds no floating-point number and every object in it is finite.
pub open spec fn plain(value: JsonModel) -> bool
    decreases value,
{
    match value {
        JsonModel::Number(NumberModel::Float(_)) => false,
        JsonModel::Array(items) => forall|i: int|
            0 <= i < items.len() ==> plain(#[trigger] items[i]),
        JsonModel::Object(map) => {
            &&& map.dom().finite()
            &&& forall|key: Seq<char>|
                map.dom().contains(key) ==> plain(#[trigger] map[key])
        },
        _ => true,
    }
}

/// Whether every character is a decimal digit.
pub open spec fn all_digits(t: Seq<char>) -> bool {
    forall|i: int| 0 <= i < t.len() ==> '0' <= #[trigger] t[i] <= '9'
}

/// The number that decimal digits stand for.
pub open spec fn digits_value(t: Seq<char>) -> int
    decreases t.len(),
{
    if t.len() == 0 {
        0
    } else {
        10 * digits_value(t.drop_last()) + (t.last() as int - '0' as int)
    }
}

/// Whether a text is a natural number in JSON: digits without a leading zero.
pub open spec fn natural_denotes(t: Seq<char>, n: int) -> bool {
    &&& t.len() > 0
    &&& all_digits(t)
    &&& t.len() > 1 ==> t[0] != '0'
    &&& digits_value(t) == n
}

/// Whether a text is an integer in JSON.
pub open spec fn integer_denotes(t: Seq<char>, n: int) -> bool {
    ||| natural_denotes(t, n)
    ||| t.len() > 0 && t[0] == '-' && natural_denotes(t.skip(1), -n)
}

/// The number that a hexadecimal digit stands for.
pub open spec fn hex_value(c: char) -> Option<int> {
    if '0' <= c <= '9' {
        Some(c as int - '0' as int)
    } else if 'a' <= c <= 'f' {
        Some(c as int - 'a' as int + 10)
    } else if 'A' <= c <= 'F' {
        Some(c as int - 'A' as int + 10)
    } else {
        None
    }
}

/// Whether a text is the escape of a code unit: `\u` and four hexadecimal digits.
pub open spec fn unit_denotes(t: Seq<char>, unit: int) -> bool {
    &&& t.len() == 6 && t[0] == '\\' && t[1] == 'u'
    &&& forall|i: int| 2 <= i < 6 ==> hex_value(#[trigger] t[i]) is Some
    &&& unit == 0x1000 * hex_value(t[2])->0 + 0x100 * hex_value(t[3])->0 + 0x10 * hex_value(
        t[4],
    )->0 + hex_value(t[5])->0
}

/// The code point that a letter behind a backslash stands for.
pub open spec fn short_escape(c: char) -> Option<int> {
    if c == '"' || c == '\\' || c == '/' {
        Some(c as int)
    } else if c == 'b' {
        Some(0x8)
    } else if c == 't' {
        Some(0x9)
    } else if c == 'n' {
        Some(0xa)
    } else if c == 'f' {
        Some(0xc)
    } else if c == 'r' {
        Some(0xd)
    } else {
        None
    }
}

/// Whether a text is a character inside a JSON string: the character itself if it may
/// stand there, a short escape, or the escape of its one or two code units.
pub open spec fn char_denotes(t: Seq<char>, c: char) -> bool {
    ||| t == seq![c] && c as int >= 0x20 && c != '"' && c != '\\'
    ||| t.len() == 2 && t[0] == '\\' && short_escape(t[1]) == Some(c as int)
    ||| unit_denotes(t, c as int)
    ||| exists|high: int, low: int|
        #![trigger unit_denotes(t.take(6), high), unit_denotes(t.skip(6), low)]
        t.len() == 12 && 0xd800 <= high < 0xdc00 && 0xdc00 <= low < 0xe000 && unit_denotes(
            t.take(6),
            high,
        ) && unit_denotes(t.skip(6), low) && c as int == 0x10000 + 0x400 * (high - 0xd800) + (low
            - 0xdc00)
}

/// Whether texts are the characters of a string, one each.
pub open spec fn chars_denote(parts: Seq<Seq<char>>, s: Seq<char>) -> bool {
    &&& parts.len() == s.len()
    &&& forall|i: int| 0 <= i < s.len() ==> char_denotes(#[trigger] parts[i], s[i])
}

/// Whether a text is a string in JSON.
pub open spec fn string_denotes(t: Seq<char>, s: Seq<char>) -> bool {
    exists|parts: Seq<Seq<char>>| #[trigger]
        chars_denote(parts, s) && t == seq!['"'] + parts.flatten() + seq!['"']
}

/// Whether a text is a value in JSON, without white space between its parts. A number
/// with a fraction or an exponent is its text.
pub open spec fn denotes(t: Seq<char>, value: JsonModel) -> bool
    decreases value, 1int,
{
    match value {
        JsonModel::Null => t == "null"@,
        JsonModel::Bool(true) => t == "true"@,
        JsonModel::Bool(false) => t == "false"@,
        JsonModel::Number(NumberModel::Integer(n)) => integer_denotes(t, n),
        JsonModel::Number(NumberModel::Float(text)) => t == text,
        JsonModel::String(s) => string_denotes(t, s),
        JsonModel::Array(_) => exists|parts: Seq<Seq<char>>|
            items_denote(parts, value) && t == seq!['['] + #[trigger] join(parts, seq![',']) + seq![
                ']',
            ],
        JsonModel::Object(_) => exists|entries: Seq<EntryText>|
            entries_denote(entries, value) && t == seq!['{'] + join(
                #[trigger] entry_members(entries),
                seq![','],
            ) + seq!['}'],
    }
}

/// An entry of an object: its key, and the texts of the key and of the value.
pub struct EntryText {
    pub key: Seq<char>,
    pub key_text: Seq<char>,
    pub value_text: Seq<char>,
}

/// The texts of entries.
pub open spec fn entry_members(entries: Seq<EntryText>) -> Seq<Seq<char>> {
    entries.map_values(|e: EntryText| member(e.key_text, e.value_text))
}

/// Whether texts are the items of an array, in their order.
pub open spec fn items_denote(parts: Seq<Seq<char>>, value: JsonModel) -> bool
    decreases value, 0int,
{
    match value {
        JsonModel::Array(items) => {
            &&& parts.len() == items.len()
            &&& forall|i: int| 0 <= i < items.len() ==> denotes(#[trigger] parts[i], items[i])
        },
        _ => false,
    }
}

/// Whether texts are the entries of an object, each once, in any order.
pub open spec fn entries_denote(entries: Seq<EntryText>, value: JsonModel) -> bool
    decreases value, 0int,
{
    match value {
        JsonModel::Object(map) => {
            &&& forall|i: int, j: int|
                0 <= i < j < entries.len() ==> (#[trigger] entries[i]).key != (
                #[trigger] entries[j]).key
            &&& forall|key: Seq<char>| #[trigger]
                map.dom().contains(key) ==> exists|i: int|
                    0 <= i < entries.len() && (#[trigger] entries[i]).key == key
            &&& forall|i: int|
                0 <= i < entries.len() ==> map.dom().contains((#[trigger] entries[i]).key)
                    && string_denotes(entries[i].key_text, entries[i].key) && denotes(
                    entries[i].value_text,
                    map[entries[i].key],
                )
        },
        _ => false,
    }
}

/// Putting a key in its place keeps keys ascending.
proof fn lemma_insert_ascending(keys: Seq<Seq<char>>, key: Seq<char>) -> (r: Seq<Seq<char>>)
    requires
        ascending(keys),
        !keys.contains(key),
    ensures
        ascending(r),
        forall|k: Seq<char>| #[trigger] r.contains(k) <==> k == key || keys.contains(k),
    decreases keys.len(),
{
    if keys.len() == 0 {
        let r = seq![key];
        assert(r[0] == key);
        assert forall|k: Seq<char>| #[trigger] r.contains(k) implies k == key || keys.contains(k) by {
        }
        r
    } else if precedes(key, keys[0]) {
        let r = seq![key] + keys;
        assert forall|i: int, j: int| 0 <= i < j < r.len() implies precedes(r[i], r[j]) by {
            assert(r[j] == keys[j - 1]);
            if i == 0 {
                if j > 1 {
                    assert(precedes(keys[0], keys[j - 1]));
                    text::lemma_precedes_transitive(key, keys[0], keys[j - 1]);
                }
            } else {
                assert(r[i] == keys[i - 1]);
                assert(precedes(keys[i - 1], keys[j - 1]));
            }
        }
        assert forall|k: Seq<char>| #[trigger] r.contains(k) <==> k == key || keys.contains(k) by {
            if k == key {
                assert(r[0] == k);
            } else if keys.contains(k) {
                let i = choose|i: int| 0 <= i < keys.len() && keys[i] == k;
                assert(r[i + 1] == k);
            } else if r.contains(k) {
                let i = choose|i: int| 0 <= i < r.len() && r[i] == k;
                assert(keys[i - 1] == k);
            }
        }
        r
    } else {
        let first = keys[0];
        let rest = keys.drop_first();
        assert(keys.contains(first));
        text::lemma_precedes_total(key, first);
        assert(precedes(first, key));
        assert forall|i: int, j: int| 0 <= i < j < rest.len() implies precedes(rest[i], rest[j]) by {
            assert(precedes(keys[i + 1], keys[j + 1]));
        }
        if rest.contains(key) {
            let i = choose|i: int| 0 <= i < rest.len() && rest[i] == key;
            assert(keys[i + 1] == key);
        }
        let tail = lemma_insert_ascending(rest, key);
        let r = seq![first] + tail;
        assert forall|i: int, j: int| 0 <= i < j < r.len() implies precedes(r[i], r[j]) by {
            assert(r[j] == tail[j - 1]);
            if i == 0 {
                assert(tail.contains(tail[j - 1]));
                if tail[j - 1] != key {
                    assert(rest.contains(tail[j - 1]));
                    let k = choose|k: int| 0 <= k < rest.len() && rest[k] == tail[j - 1];
                    assert(precedes(keys[0], keys[k + 1]));
                }
            } else {
                assert(r[i] == tail[i - 1]);
                assert(precedes(tail[i - 1], tail[j - 1]));
            }
        }
        assert forall|k: Seq<char>| #[trigger] r.contains(k) <==> k == key || keys.contains(k) by {
            if r.contains(k) {
                let i = choose|i: int| 0 <= i < r.len() && r[i] == k;
                if i > 0 {
                    assert(tail.contains(tail[i - 1]));
                    if k != key {
                        let n = choose|n: int| 0 <= n < rest.len() && rest[n] == k;
                        assert(keys[n + 1] == k);
                    }
                }
            }
            if k == key || keys.contains(k) {
                if k == first {
                    assert(r[0] == k);
                } else {
                    if keys.contains(k) {
                        let n = choose|n: int| 0 <= n < keys.len() && keys[n] == k;
                        assert(rest[n - 1] == k);
                        assert(rest.contains(k));
                    }
                    assert(tail.contains(k));
                    let n = choose|n: int| 0 <= n < tail.len() && tail[n] == k;
                    assert(r[n + 1] == k);
                }
            }
        }
        r
    }
}

/// The keys of a finite set stand in ascending order in some sequence.
proof fn lemma_ascending_sequence(keys: Set<Seq<char>>) -> (r: Seq<Seq<char>>)
    requires
        keys.finite(),
    ensures
        ascending(r),
        r.to_set() == keys,
    decreases keys.len(),
{
    if keys.len() == 0 {
        let r = Seq::<Seq<char>>::empty();
        assert(r.to_set() =~= keys);
        r
    } else {
        let key = keys.choose();
        let rest = lemma_ascending_sequence(keys.remove(key));
        assert(!rest.to_set().contains(key));
        let r = lemma_insert_ascending(rest, key);
        assert forall|k: Seq<char>| #[trigger] r.to_set().contains(k) <==> keys.contains(k) by {
            assert(r.contains(k) <==> k == key || rest.contains(k));
            assert(rest.to_set().contains(k) <==> keys.remove(key).contains(k));
        }
        assert(r.to_set() =~= keys);
        r
    }
}

/// The ascending keys of a finite set are its keys in ascending order.
pub proof fn lemma_ascending_keys(keys: Set<Seq<char>>)
    requires
        keys.finite(),
    ensures
        ascending(ascending_keys(keys)),
        ascending_keys(keys).to_set() == keys,
        forall|i: int|
            0 <= i < ascending_keys(keys).len() ==> keys.contains(
                #[trigger] ascending_keys(keys)[i],
            ),
{
    let r = lemma_ascending_sequence(keys);
    assert(ascending(r) && r.to_set() == keys);
    let s = ascending_keys(keys);
    assert forall|i: int| 0 <= i < s.len() implies keys.contains(#[trigger] s[i]) by {
        assert(s.to_set().contains(s[i]));
    }
}

/// Decimal digits are digits without a leading zero that stand for the number.
pub proof fn lemma_decimal(n: nat)
    ensures
        natural_denotes(decimal(n), n as int),
        n > 0 ==> decimal(n)[0] != '0',
    decreases n,
{
    let t = decimal(n);
    if n < 10 {
        assert(t == seq![decimal_digit(n)]);
        assert(digits_value(t.drop_last()) == 0);
    } else {
        let front = decimal(n / 10);
        lemma_decimal(n / 10);
        assert(t == front.push(decimal_digit(n % 10)));
        assert(t.drop_last() == front);
        assert(t[0] == front[0]);
    }
}

/// An integer's text denotes it.
proof fn lemma_integer_text(n: int)
    ensures
        integer_denotes(integer_text(n), n),
{
    if n < 0 {
        lemma_decimal((-n) as nat);
        assert(integer_text(n).skip(1) == decimal((-n) as nat));
    } else {
        lemma_decimal(n as nat);
    }
}

/// A small hexadecimal digit stands for its number.
pub proof fn lemma_hex_digit(d: int)
    requires
        0 <= d < 16,
    ensures
        hex_value(hex_digit(d)) == Some(d),
{
    reveal_strlit("0123456789abcdef");
    let s = "0123456789abcdef"@;
    assert(s[0] == '0' && s[1] == '1' && s[2] == '2' && s[3] == '3');
    assert(s[4] == '4' && s[5] == '5' && s[6] == '6' && s[7] == '7');
    assert(s[8] == '8' && s[9] == '9' && s[10] == 'a' && s[11] == 'b');
    assert(s[12] == 'c' && s[13] == 'd' && s[14] == 'e' && s[15] == 'f');
}

/// The escape of a character denotes it and does not begin with a quote.
pub proof fn lemma_escape(c: char)
    ensures
        char_denotes(json_escape(c), c),
        json_escape(c).len() > 0,
        json_escape(c)[0] != '"',
{
    let p = c as int;
    let t = json_escape(c);
    if p < 0x20 && p != 0x8 && p != 0x9 && p != 0xa && p != 0xc && p != 0xd {
        lemma_hex_digit(p / 16);
        lemma_hex_digit(p % 16);
        assert(hex_value('0') == Some(0int));
        assert(t[2] == '0' && t[3] == '0');
        assert(t[4] == hex_digit(p / 16) && t[5] == hex_digit(p % 16));
        assert(unit_denotes(t, p));
    } else if c == '"' || c == '\\' || p < 0x20 {
        assert(t.len() == 2 && t[0] == '\\');
        assert(short_escape(t[1]) == Some(p));
    }
}

/// A string's text denotes it.
proof fn lemma_string_text(s: Seq<char>)
    ensures
        string_denotes(json_string_text(s), s),
{
    let parts = s.map_values(|c: char| json_escape(c));
    assert forall|i: int| 0 <= i < s.len() implies char_denotes(#[trigger] parts[i], s[i]) by {
        lemma_escape(s[i]);
    }
    assert(chars_denote(parts, s));
}

/// The canonical text of a value denotes it.
proof fn lemma_text_denotes(value: JsonModel)
    requires
        plain(value),
    ensures
        denotes(canonical_text(value), value),
    decreases value,
{
    match value {
        JsonModel::Number(NumberModel::Integer(n)) => {
            lemma_integer_text(n);
        },
        JsonModel::String(s) => {
            lemma_string_text(s);
        },
        JsonModel::Array(items) => {
            let parts = element_texts(value);
            assert forall|i: int| 0 <= i < items.len() implies denotes(
                #[trigger] parts[i],
                items[i],
            ) by {
                assert(decreases_to!(value => items[i]));
                lemma_text_denotes(items[i]);
            }
            assert(items_denote(parts, value));
            assert(canonical_text(value) == seq!['['] + join(parts, seq![',']) + seq![']']);
        },
        JsonModel::Object(map) => {
            let keys = ascending_keys(map.dom());
            lemma_ascending_keys(map.dom());
            let entries = Seq::new(
                keys.len(),
                |i: int|
                    EntryText {
                        key: keys[i],
                        key_text: json_string_text(keys[i]),
                        value_text: canonical_text(map[keys[i]]),
                    },
            );
            assert forall|i: int, j: int| 0 <= i < j < entries.len() implies (
            #[trigger] entries[i]).key != (#[trigger] entries[j]).key by {
                assert(precedes(keys[i], keys[j]));
                text::lemma_precedes_irreflexive(keys[i]);
            }
            assert forall|key: Seq<char>| #[trigger] map.dom().contains(key) implies exists|i: int|
                0 <= i < entries.len() && (#[trigger] entries[i]).key == key by {
                assert(keys.to_set().contains(key));
                let i = choose|i: int| 0 <= i < keys.len() && keys[i] == key;
                assert(entries[i].key == key);
            }
            assert forall|i: int| 0 <= i < entries.len() implies map.dom().contains(
                (#[trigger] entries[i]).key,
            ) && string_denotes(entries[i].key_text, entries[i].key) && denotes(
                entries[i].value_text,
                map[entries[i].key],
            ) by {
                let key = keys[i];
                assert(map.dom().contains(key));
                lemma_string_text(key);
                assert(decreases_to!(value => map[key]));
                lemma_text_denotes(map[key]);
            }
            assert(entries_denote(entries, value));
            let parts = entry_members(entries);
            assert forall|i: int| 0 <= i < keys.len() implies parts[i] == #[trigger] member_texts(
                value,
            )[i] by {
                assert(map.dom().contains(keys[i]));
            }
            assert(parts =~= member_texts(value));
            assert(canonical_text(value) == seq!['{'] + join(parts, seq![',']) + seq!['}']);
        },
        _ => {},
    }
}

/// Equal texts with beginnings of equal length have equal beginnings and equal ends.
proof fn lemma_cancel(p: Seq<char>, q: Seq<char>, x: Seq<char>, y: Seq<char>)
    requires
        p.len() == q.len(),
        p + x == q + y,
    ensures
        p == q,
        x == y,
{
    assert(p == (p + x).take(p.len() as int));
    assert(q == (q + y).take(q.len() as int));
    assert(x == (p + x).skip(p.len() as int));
    assert(y == (q + y).skip(q.len() as int));
}

/// Whether a text can stand behind a value: nothing, a comma or a closing bracket.
spec fn behind_value(x: Seq<char>) -> bool {
    x.len() == 0 || x[0] == ',' || x[0] == ']' || x[0] == '}'
}

/// Decimal digits end where something other than a digit begins.
proof fn lemma_decimal_apart(m: nat, n: nat, x: Seq<char>, y: Seq<char>)
    requires
        behind_value(x),
        behind_value(y),
        decimal(m) + x == decimal(n) + y,
    ensures
        m == n,
        x == y,
{
    let (p, q) = (decimal(m), decimal(n));
    lemma_decimal(m);
    lemma_decimal(n);
    if p.len() < q.len() {
        let k = p.len() as int;
        assert((p + x).len() == (q + y).len());
        assert((p + x)[k] == x[0]);
        assert((q + y)[k] == q[k]);
    } else if q.len() < p.len() {
        let k = q.len() as int;
        assert((p + x).len() == (q + y).len());
        assert((q + y)[k] == y[0]);
        assert((p + x)[k] == p[k]);
    }
    lemma_cancel(p, q, x, y);
}

/// Integers are told apart by their texts.
proof fn lemma_integer_apart(m: int, n: int, x: Seq<char>, y: Seq<char>)
    requires
        behind_value(x),
        behind_value(y),
        integer_text(m) + x == integer_text(n) + y,
    ensures
        m == n,
        x == y,
{
    let (p, q) = (integer_text(m), integer_text(n));
    lemma_decimal(if m < 0 { (-m) as nat } else { m as nat });
    lemma_decimal(if n < 0 { (-n) as nat } else { n as nat });
    assert((p + x)[0] == p[0]);
    assert((q + y)[0] == q[0]);
    if m < 0 {
        assert(p[0] == '-');
        assert(n < 0);
        let (d, e) = (decimal((-m) as nat), decimal((-n) as nat));
        assert(seq!['-'] + (d + x) == p + x);
        assert(seq!['-'] + (e + y) == q + y);
        lemma_cancel(seq!['-'], seq!['-'], d + x, e + y);
        lemma_decimal_apart((-m) as nat, (-n) as nat, x, y);
    } else {
        assert(n >= 0) by {
            if n < 0 {
                assert(q[0] == '-');
            }
        }
        lemma_decimal_apart(m as nat, n as nat, x, y);
    }
}

/// Characters are told apart by their escapes.
proof fn lemma_escape_apart(c: char, d: char, x: Seq<char>, y: Seq<char>)
    requires
        json_escape(c) + x == json_escape(d) + y,
    ensures
        c == d,
        x == y,
{
    let (p, q) = (json_escape(c), json_escape(d));
    lemma_escape(c);
    lemma_escape(d);
    assert((p + x)[0] == p[0] && (q + y)[0] == q[0]);
    if p.len() > 1 && q.len() > 1 {
        assert((p + x)[1] == p[1] && (q + y)[1] == q[1]);
        assert(p.len() == 6 <==> p[1] == 'u');
        assert(q.len() == 6 <==> q[1] == 'u');
        lemma_cancel(p, q, x, y);
        if p.len() == 6 {
            lemma_hex_digit(c as int / 16);
            lemma_hex_digit(c as int % 16);
            lemma_hex_digit(d as int / 16);
            lemma_hex_digit(d as int % 16);
            assert(p[4] == q[4] && p[5] == q[5]);
            assert(c as int == d as int);
        } else {
            assert(short_escape(p[1]) == Some(c as int));
            assert(short_escape(q[1]) == Some(d as int));
        }
    } else {
        assert(p.len() == 1 && q.len() == 1);
        assert(p[0] == c && q[0] == d);
        lemma_cancel(p, q, x, y);
    }
}

/// The escaped characters of a string.
spec fn escaped(s: Seq<char>) -> Seq<char> {
    s.map_values(|c: char| json_escape(c)).flatten()
}

/// The first character of a string comes first.
proof fn lemma_escaped_first(s: Seq<char>)
    requires
        s.len() > 0,
    ensures
        escaped(s) == json_escape(s[0]) + escaped(s.drop_first()),
{
    let parts = s.map_values(|c: char| json_escape(c));
    assert(parts.drop_first() == s.drop_first().map_values(|c: char| json_escape(c)));
    assert(parts.first() == json_escape(s[0]));
}

/// Strings are told apart by their escaped characters and the quote behind them.
proof fn lemma_escaped_apart(s: Seq<char>, t: Seq<char>, x: Seq<char>, y: Seq<char>)
    requires
        escaped(s) + (seq!['"'] + x) == escaped(t) + (seq!['"'] + y),
    ensures
        s == t,
        x == y,
    decreases s.len(),
{
    let (u, v) = (seq!['"'] + x, seq!['"'] + y);
    if s.len() > 0 {
        lemma_escaped_first(s);
        lemma_escape(s[0]);
        assert((escaped(s) + u)[0] == json_escape(s[0])[0]);
    } else {
        assert(escaped(s) + u == u);
        assert((escaped(s) + u)[0] == '"');
    }
    if t.len() > 0 {
        lemma_escaped_first(t);
        lemma_escape(t[0]);
        assert((escaped(t) + v)[0] == json_escape(t[0])[0]);
    } else {
        assert(escaped(t) + v == v);
        assert((escaped(t) + v)[0] == '"');
    }
    if s.len() > 0 {
        let (a, b) = (s.drop_first(), t.drop_first());
        assert(escaped(s) + u == json_escape(s[0]) + (escaped(a) + u));
        assert(escaped(t) + v == json_escape(t[0]) + (escaped(b) + v));
        lemma_escape_apart(s[0], t[0], escaped(a) + u, escaped(b) + v);
        lemma_escaped_apart(a, b, x, y);
        assert(s == seq![s[0]] + a);
        assert(t == seq![t[0]] + b);
    } else {
        lemma_cancel(seq!['"'], seq!['"'], x, y);
        assert(s == t);
    }
}

/// Strings are told apart by their texts.
proof fn lemma_string_apart(s: Seq<char>, t: Seq<char>, x: Seq<char>, y: Seq<char>)
    requires
        json_string_text(s) + x == json_string_text(t) + y,
    ensures
        s == t,
        x == y,
{
    let (u, v) = (escaped(s) + (seq!['"'] + x), escaped(t) + (seq!['"'] + y));
    assert(json_string_text(s) + x == seq!['"'] + u);
    assert(json_string_text(t) + y == seq!['"'] + v);
    lemma_cancel(seq!['"'], seq!['"'], u, v);
    lemma_escaped_apart(s, t, x, y);
}

/// What stands of a list from a part on: the part, behind a comma unless it is the first,
/// the parts behind it and the closing bracket.
spec fn list_from(parts: Seq<Seq<char>>, i: int, close: char) -> Seq<char>
    decreases parts.len() - i,
{
    if i >= parts.len() {
        seq![close]
    } else if i <= 0 {
        parts[i] + list_from(parts, i + 1, close)
    } else {
        seq![','] + (parts[i] + list_from(parts, i + 1, close))
    }
}

/// Joined parts with a closing bracket, split at a part.
proof fn lemma_list(parts: Seq<Seq<char>>, i: int, close: char)
    requires
        0 <= i <= parts.len(),
    ensures
        join(parts.take(i), seq![',']) + list_from(parts, i, close) == join(parts, seq![','])
            + seq![close],
    decreases parts.len() - i,
{
    if i == parts.len() {
        assert(parts.take(i) == parts);
    } else {
        lemma_list(parts, i + 1, close);
        let next = parts.take(i + 1);
        assert(next.drop_last() == parts.take(i));
        assert(next.last() == parts[i]);
        let front = join(parts.take(i), seq![',']);
        let rest = list_from(parts, i + 1, close);
        if i == 0 {
            assert(front == Seq::<char>::empty());
            assert(join(next, seq![',']) == parts[0]);
            assert(front + (parts[i] + rest) == parts[0] + rest);
        } else {
            assert(join(next, seq![',']) == front + seq![','] + parts[i]);
            assert(front + (seq![','] + (parts[i] + rest)) == front + seq![','] + parts[i] + rest);
        }
    }
}

/// A bracketed list, from its first part on.
proof fn lemma_bracketed(open: char, parts: Seq<Seq<char>>, close: char, x: Seq<char>)
    ensures
        seq![open] + join(parts, seq![',']) + seq![close] + x == seq![open] + (list_from(
            parts,
            0,
            close,
        ) + x),
{
    lemma_list(parts, 0, close);
    assert(join(parts.take(0), seq![',']) + list_from(parts, 0, close) == list_from(
        parts,
        0,
        close,
    ));
    let body = join(parts, seq![',']);
    assert(seq![open] + body + seq![close] + x == seq![open] + ((body + seq![close]) + x));
}

/// What follows the first part of a list can stand behind a value.
proof fn lemma_list_behind(parts: Seq<Seq<char>>, i: int, close: char, x: Seq<char>)
    requires
        i > 0,
        close == ']' || close == '}',
    ensures
        behind_value(list_from(parts, i, close) + x),
        list_from(parts, i, close).len() > 0,
        list_from(parts, i, close)[0] == if i >= parts.len() {
            close
        } else {
            ','
        },
{
    assert((list_from(parts, i, close) + x)[0] == list_from(parts, i, close)[0]);
}

/// The kind of a value.
spec fn kind(value: JsonModel) -> int {
    match value {
        JsonModel::Null => 0,
        JsonModel::Bool(true) => 1,
        JsonModel::Bool(false) => 2,
        JsonModel::Number(_) => 3,
        JsonModel::String(_) => 4,
        JsonModel::Array(_) => 5,
        JsonModel::Object(_) => 6,
    }
}

/// The kind of the values whose texts begin with a character.
spec fn kind_from(c: char) -> int {
    if c == 'n' {
        0
    } else if c == 't' {
        1
    } else if c == 'f' {
        2
    } else if c == '-' || '0' <= c <= '9' {
        3
    } else if c == '"' {
        4
    } else if c == '[' {
        5
    } else if c == '{' {
        6
    } else {
        7
    }
}

/// The first character of a text tells the kind of the value.
proof fn lemma_first(value: JsonModel)
    requires
        plain(value),
    ensures
        canonical_text(value).len() > 0,
        kind_from(canonical_text(value)[0]) == kind(value),
{
    reveal_strlit("null");
    reveal_strlit("true");
    reveal_strlit("false");
    match value {
        JsonModel::Number(NumberModel::Integer(n)) => {
            lemma_decimal(if n < 0 { (-n) as nat } else { n as nat });
        },
        _ => {},
    }
}

/// Values are told apart by their texts, whatever stands behind them.
proof fn lemma_values_apart(a: JsonModel, b: JsonModel, x: Seq<char>, y: Seq<char>)
    requires
        plain(a),
        plain(b),
        behind_value(x),
        behind_value(y),
        canonical_text(a) + x == canonical_text(b) + y,
    ensures
        a == b,
        x == y,
    decreases a, 1int, 0int,
{
    lemma_first(a);
    lemma_first(b);
    assert((canonical_text(a) + x)[0] == canonical_text(a)[0]);
    assert((canonical_text(b) + y)[0] == canonical_text(b)[0]);
    match (a, b) {
        (
            JsonModel::Number(NumberModel::Integer(m)),
            JsonModel::Number(NumberModel::Integer(n)),
        ) => {
            lemma_integer_apart(m, n, x, y);
        },
        (JsonModel::String(s), JsonModel::String(t)) => {
            lemma_string_apart(s, t, x, y);
        },
        (JsonModel::Array(_), JsonModel::Array(_)) => {
            let (p, q) = (element_texts(a), element_texts(b));
            lemma_bracketed('[', p, ']', x);
            lemma_bracketed('[', q, ']', y);
            lemma_cancel(
                seq!['['],
                seq!['['],
                list_from(p, 0, ']') + x,
                list_from(q, 0, ']') + y,
            );
            lemma_items_apart(a, b, 0, x, y);
        },
        (JsonModel::Object(_), JsonModel::Object(_)) => {
            let (p, q) = (member_texts(a), member_texts(b));
            lemma_bracketed('{', p, '}', x);
            lemma_bracketed('{', q, '}', y);
            lemma_cancel(
                seq!['{'],
                seq!['{'],
                list_from(p, 0, '}') + x,
                list_from(q, 0, '}') + y,
            );
            lemma_members_apart(a, b, 0, x, y);
        },
        _ => {
            assert(a == b);
            lemma_cancel(canonical_text(a), canonical_text(b), x, y);
        },
    }
}

/// Arrays are told apart by the texts of their items, from an item on.
proof fn lemma_items_apart(a: JsonModel, b: JsonModel, i: int, x: Seq<char>, y: Seq<char>)
    requires
        a is Array,
        b is Array,
        plain(a),
        plain(b),
        0 <= i <= a->Array_0.len(),
        i <= b->Array_0.len(),
        forall|k: int| 0 <= k < i ==> a->Array_0[k] == b->Array_0[k],
        list_from(element_texts(a), i, ']') + x == list_from(element_texts(b), i, ']') + y,
    ensures
        a == b,
        x == y,
    decreases a, 0int, a->Array_0.len() - i,
{
    let (p, q) = (element_texts(a), element_texts(b));
    let (items, others) = (a->Array_0, b->Array_0);
    let (f, g) = (list_from(p, i, ']'), list_from(q, i, ']'));
    if i < items.len() {
        lemma_first(items[i]);
    }
    if i < others.len() {
        lemma_first(others[i]);
    }
    assert(f.len() > 0 && g.len() > 0);
    assert((f + x)[0] == f[0] && (g + y)[0] == g[0]);
    if i < items.len() && i < others.len() {
        let (r, s) = (list_from(p, i + 1, ']') + x, list_from(q, i + 1, ']') + y);
        lemma_list_behind(p, i + 1, ']', x);
        lemma_list_behind(q, i + 1, ']', y);
        if i > 0 {
            assert(f + x == seq![','] + (p[i] + r));
            assert(g + y == seq![','] + (q[i] + s));
            lemma_cancel(seq![','], seq![','], p[i] + r, q[i] + s);
        } else {
            assert(f + x == p[i] + r);
            assert(g + y == q[i] + s);
        }
        assert(decreases_to!(a => items[i]));
        lemma_values_apart(items[i], others[i], r, s);
        lemma_items_apart(a, b, i + 1, x, y);
    } else {
        assert(i == items.len() && i == others.len());
        lemma_cancel(f, g, x, y);
        assert(items =~= others);
    }
}

/// Objects are told apart by the texts of their entries, from an entry on.
proof fn lemma_members_apart(a: JsonModel, b: JsonModel, i: int, x: Seq<char>, y: Seq<char>)
    requires
        a is Object,
        b is Object,
        plain(a),
        plain(b),
        0 <= i <= ascending_keys(a->Object_0.dom()).len(),
        i <= ascending_keys(b->Object_0.dom()).len(),
        forall|k: int|
            0 <= k < i ==> (#[trigger] ascending_keys(a->Object_0.dom())[k]) == ascending_keys(
                b->Object_0.dom(),
            )[k] && a->Object_0[ascending_keys(a->Object_0.dom())[k]]
                == b->Object_0[ascending_keys(a->Object_0.dom())[k]],
        list_from(member_texts(a), i, '}') + x == list_from(member_texts(b), i, '}') + y,
    ensures
        a == b,
        x == y,
    decreases a, 0int, ascending_keys(a->Object_0.dom()).len() - i,
{
    let (p, q) = (member_texts(a), member_texts(b));
    let (map, other) = (a->Object_0, b->Object_0);
    let (keys, others) = (ascending_keys(map.dom()), ascending_keys(other.dom()));
    lemma_ascending_keys(map.dom());
    lemma_ascending_keys(other.dom());
    let (f, g) = (list_from(p, i, '}'), list_from(q, i, '}'));
    if i < keys.len() {
        assert(map.dom().contains(keys[i]));
        assert(p[i] == member(json_string_text(keys[i]), canonical_text(map[keys[i]])));
        assert(p[i][0] == '"');
    }
    if i < others.len() {
        assert(other.dom().contains(others[i]));
        assert(q[i] == member(json_string_text(others[i]), canonical_text(other[others[i]])));
        assert(q[i][0] == '"');
    }
    assert(f.len() > 0 && g.len() > 0);
    assert((f + x)[0] == f[0] && (g + y)[0] == g[0]);
    if i < keys.len() && i < others.len() {
        let (r, s) = (list_from(p, i + 1, '}') + x, list_from(q, i + 1, '}') + y);
        lemma_list_behind(p, i + 1, '}', x);
        lemma_list_behind(q, i + 1, '}', y);
        if i > 0 {
            assert(f + x == seq![','] + (p[i] + r));
            assert(g + y == seq![','] + (q[i] + s));
            lemma_cancel(seq![','], seq![','], p[i] + r, q[i] + s);
        } else {
            assert(f + x == p[i] + r);
            assert(g + y == q[i] + s);
        }
        let (k, l) = (keys[i], others[i]);
        let (v, w) = (canonical_text(map[k]) + r, canonical_text(other[l]) + s);
        assert(p[i] + r == json_string_text(k) + (seq![':'] + v));
        assert(q[i] + s == json_string_text(l) + (seq![':'] + w));
        lemma_string_apart(k, l, seq![':'] + v, seq![':'] + w);
        lemma_cancel(seq![':'], seq![':'], v, w);
        assert(decreases_to!(a => map[k]));
        lemma_values_apart(map[k], other[l], r, s);
        lemma_members_apart(a, b, i + 1, x, y);
    } else {
        assert(i == keys.len() && i == others.len());
        lemma_cancel(f, g, x, y);
        assert(keys =~= others);
        assert(map.dom() == other.dom());
        assert forall|key: Seq<char>| map.dom().contains(key) implies map[key] == other[key] by {
            assert(keys.to_set().contains(key));
            let k = choose|k: int| 0 <= k < keys.len() && keys[k] == key;
            assert(ascending_keys(map.dom())[k] == key);
        }
        assert(map =~= other);
    }
}

/// A well-formed value without floating-point numbers is a plain one.
proof fn lemma_model_is_plain(value: Json)
    requires
        value.well_formed(),
        without_floats(value),
    ensures
        plain(value.model()),
    decreases value,
{
    match value {
        Json::Array(items) => {
            let models = value.model()->Array_0;
            assert forall|i: int| 0 <= i < models.len() implies plain(#[trigger] models[i]) by {
                assert(decreases_to!(value => items@[i]));
                assert(items@[i].well_formed() && without_floats(items@[i]));
                lemma_model_is_plain(items@[i]);
            }
        },
        Json::Object(entries) => {
            let map = value.model()->Object_0;
            let keys = entries@.map_values(|e: (String, Json)| e.0@);
            assert forall|key: Seq<char>| map.dom().contains(key) implies keys.to_set().contains(
                key,
            ) && plain(#[trigger] map[key]) by {
                assert(json::has_key(entries@, key));
                let i = choose|i: int| 0 <= i < entries@.len() && #[trigger] entries@[i].0@ == key;
                assert(keys[i] == key);
                assert(decreases_to!(value => entries@[i].1));
                assert(entries@[i].1.well_formed() && without_floats(entries@[i].1));
                lemma_model_is_plain(entries@[i].1);
                json::lemma_object_entry(entries, i);
            }
            vstd::seq_lib::seq_to_set_is_finite(keys);
            assert(map.dom().subset_of(keys.to_set())) by {
                assert forall|key: Seq<char>| map.dom().contains(key) implies keys.to_set().contains(
                    key,
                ) by {
                    assert(plain(map[key]));
                }
            }
            vstd::set_lib::lemma_set_subset_finite(keys.to_set(), map.dom());
        },
        _ => {},
    }
}

/// The canonical text of a value without floating-point numbers is a JSON text that
/// denotes the value.
pub proof fn law_canonical_text_denotes_value(value: Json)
    requires
        value.well_formed(),
        without_floats(value),
    ensures
        denotes(canonical_text(value.model()), value.model()),
{
    lemma_model_is_plain(value);
    lemma_text_denotes(value.model());
}

/// The canonical text identifies a value: two values without floating-point numbers have
/// the same text exactly if they are the same value, the order of object keys aside.
pub proof fn law_canonical_text_identifies_value(a: Json, b: Json)
    requires
        a.well_formed(),
        b.well_formed(),
        without_floats(a),
        without_floats(b),
    ensures
        canonical_text(a.model()) == canonical_text(b.model()) <==> a.model() == b.model(),
{
    lemma_model_is_plain(a);
    lemma_model_is_plain(b);
    let (s, t) = (canonical_text(a.model()), canonical_text(b.model()));
    if s == t {
        assert(s + seq![] == t + seq![]);
        lemma_values_apart(a.model(), b.model(), seq![], seq![]);
    }
}

} // verus!
