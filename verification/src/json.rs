//! JSON values.

use crate::text::str_eq;
use vstd::prelude::*;

verus! {

/// A JSON number.
#[derive(Debug, PartialEq, Eq)]
pub enum JsonNumber {
    /// An integer that is not negative.
    Unsigned(u64),
    /// A negative integer.
    Negative(i64),
    /// A number with a fraction or an exponent, as the text it is printed as.
    Float(String),
}

/// A JSON value. The entries of an object stand in any order; a value is well
/// formed if no object in it holds a key twice.
#[derive(Debug, PartialEq, Eq)]
pub enum Json {
    Null,
    Bool(bool),
    Number(JsonNumber),
    String(String),
    Array(Vec<Json>),
    Object(Vec<(String, Json)>),
}

/// What a JSON number is.
pub enum NumberModel {
    Integer(int),
    Float(Seq<char>),
}

/// What a JSON value is: an object is a map from keys to values.
pub enum JsonModel {
    Null,
    Bool(bool),
    Number(NumberModel),
    String(Seq<char>),
    Array(Seq<JsonModel>),
    Object(Map<Seq<char>, JsonModel>),
}

/// Whether an entry with this key is among the entries.
pub open spec fn has_key(entries: Seq<(String, Json)>, key: Seq<char>) -> bool {
    exists|i: int| 0 <= i < entries.len() && #[trigger] entries[i].0@ == key
}

/// The position of an entry with this key.
pub open spec fn key_index(entries: Seq<(String, Json)>, key: Seq<char>) -> int {
    choose|i: int| 0 <= i < entries.len() && #[trigger] entries[i].0@ == key
}

impl JsonNumber {
    pub open spec fn model(self) -> NumberModel {
        match self {
            JsonNumber::Unsigned(n) => NumberModel::Integer(n as int),
            JsonNumber::Negative(n) => NumberModel::Integer(n as int),
            JsonNumber::Float(t) => NumberModel::Float(t@),
        }
    }
}

impl Json {
    /// The value that this is.
    pub open spec fn model(self) -> JsonModel
        decreases self,
    {
        match self {
            Json::Null => JsonModel::Null,
            Json::Bool(b) => JsonModel::Bool(b),
            Json::Number(n) => JsonModel::Number(n.model()),
            Json::String(s) => JsonModel::String(s@),
            Json::Array(items) => JsonModel::Array(
                Seq::new(
                    items@.len(),
                    |i: int|
                        if 0 <= i < items@.len() {
                            items@[i].model()
                        } else {
                            arbitrary()
                        },
                ),
            ),
            Json::Object(entries) => JsonModel::Object(
                Map::new(
                    |key: Seq<char>| has_key(entries@, key),
                    |key: Seq<char>|
                        {
                            let i = key_index(entries@, key);
                            if 0 <= i < entries@.len() {
                                entries@[i].1.model()
                            } else {
                                arbitrary()
                            }
                        },
                ),
            ),
        }
    }

    /// Whether no object in this value holds a key twice.
    pub open spec fn well_formed(self) -> bool
        decreases self,
    {
        match self {
            Json::Array(items) => forall|i: int|
                0 <= i < items@.len() ==> (#[trigger] items@[i]).well_formed(),
            Json::Object(entries) => {
                &&& forall|i: int|
                    0 <= i < entries@.len() ==> (#[trigger] entries@[i]).1.well_formed()
                &&& distinct_keys(entries@)
            },
            _ => true,
        }
    }
}

/// Whether no key stands at two places.
pub open spec fn distinct_keys(entries: Seq<(String, Json)>) -> bool {
    forall|i: int, j: int|
        0 <= i < j < entries.len() ==> #[trigger] entries[i].0@ != #[trigger] entries[j].0@
}

/// With distinct keys, an entry is the one that its key finds.
pub proof fn lemma_entry_of_key(entries: Seq<(String, Json)>, i: int)
    requires
        distinct_keys(entries),
        0 <= i < entries.len(),
    ensures
        has_key(entries, entries[i].0@),
        key_index(entries, entries[i].0@) == i,
{
    let key = entries[i].0@;
    assert(entries[i].0@ == key);
    let j = key_index(entries, key);
    assert(0 <= j < entries.len() && entries[j].0@ == key);
    if j < i {
        assert(entries[j].0@ != entries[i].0@);
    } else if i < j {
        assert(entries[i].0@ != entries[j].0@);
    }
}

/// What an object holds under the key of one of its entries.
pub proof fn lemma_object_entry(entries: Vec<(String, Json)>, i: int)
    requires
        distinct_keys(entries@),
        0 <= i < entries@.len(),
    ensures
        Json::Object(entries).model() is Object,
        Json::Object(entries).model()->Object_0.dom().contains(entries@[i].0@),
        Json::Object(entries).model()->Object_0[entries@[i].0@] == entries@[i].1.model(),
{
    lemma_entry_of_key(entries@, i);
}

/// What an object made of these entries holds.
pub open spec fn members(entries: Vec<(String, Json)>) -> Map<Seq<char>, JsonModel> {
    Json::Object(entries).model()->Object_0
}

/// The value under a key, if this is an object that holds the key.
pub open spec fn member_of(value: JsonModel, key: Seq<char>) -> Option<JsonModel> {
    match value {
        JsonModel::Object(map) => if map.dom().contains(key) {
            Some(map[key])
        } else {
            None
        },
        _ => None,
    }
}

/// The position of the entry with a key.
fn find_key(entries: &Vec<(String, Json)>, key: &str) -> (r: Option<usize>)
    ensures
        match r {
            Some(i) => i < entries@.len() && entries@[i as int].0@ == key@,
            None => !has_key(entries@, key@),
        },
{
    let mut i: usize = 0;
    while i < entries.len()
        invariant
            i <= entries@.len(),
            forall|j: int| 0 <= j < i ==> #[trigger] entries@[j].0@ != key@,
        decreases entries@.len() - i,
    {
        if str_eq(entries[i].0.as_str(), key) {
            return Some(i);
        }
        i += 1;
    }
    None
}

impl Json {
    /// A string value.
    pub fn text(s: &str) -> (r: Self)
        ensures
            r.model() == JsonModel::String(s@),
            r.well_formed(),
    {
        Json::String(s.to_owned())
    }

    /// An integer value.
    pub fn integer(n: i64) -> (r: Self)
        ensures
            r.model() == JsonModel::Number(NumberModel::Integer(n as int)),
            r.well_formed(),
    {
        if n >= 0 {
            Json::Number(JsonNumber::Unsigned(n as u64))
        } else {
            Json::Number(JsonNumber::Negative(n))
        }
    }

    /// An integer value that is not negative.
    pub fn unsigned(n: u64) -> (r: Self)
        ensures
            r.model() == JsonModel::Number(NumberModel::Integer(n as int)),
            r.well_formed(),
    {
        Json::Number(JsonNumber::Unsigned(n))
    }

    /// An array of strings.
    pub fn text_array(items: &Vec<String>) -> (r: Self)
        ensures
            r.model() == JsonModel::Array(
                items.deep_view().map_values(|s: Seq<char>| JsonModel::String(s)),
            ),
            r.well_formed(),
    {
        let mut texts: Vec<Json> = Vec::new();
        let mut i: usize = 0;
        while i < items.len()
            invariant
                i <= items@.len(),
                texts@.len() == i,
                forall|k: int|
                    0 <= k < i ==> (#[trigger] texts@[k]).model() == JsonModel::String(items@[k]@)
                        && texts@[k].well_formed(),
            decreases items@.len() - i,
        {
            texts.push(Json::text(items[i].as_str()));
            i += 1;
        }
        let r: Json = Json::Array(texts);
        proof {
            let expected = items.deep_view().map_values(|s: Seq<char>| JsonModel::String(s));
            let models = r.model()->Array_0;
            assert forall|k: int| 0 <= k < models.len() implies models[k] == expected[k] by {
                assert(models[k] == texts@[k].model());
            }
            assert(models == expected);
        }
        r
    }

    /// The value under a key, if this is an object that holds the key.
    pub fn get(&self, key: &str) -> (r: Option<&Json>)
        requires
            self.well_formed(),
        ensures
            match r {
                Some(value) => member_of(self.model(), key@) == Some(value.model())
                    && value.well_formed(),
                None => member_of(self.model(), key@) is None,
            },
    {
        match self {
            Json::Object(entries) => match find_key(entries, key) {
                Some(i) => {
                    proof {
                        lemma_object_entry(*entries, i as int);
                        assert(entries@[i as int].1.well_formed());
                    }
                    Some(&entries[i].1)
                },
                None => None,
            },
            _ => None,
        }
    }

    /// The text, if this is a string.
    pub fn as_str(&self) -> (r: Option<&str>)
        ensures
            match r {
                Some(s) => self.model() == JsonModel::String(s@),
                None => !(self.model() is String),
            },
    {
        match self {
            Json::String(s) => Some(s.as_str()),
            _ => None,
        }
    }
}

/// An object under construction.
#[derive(Debug)]
pub struct JsonObject {
    entries: Vec<(String, Json)>,
}

impl View for JsonObject {
    type V = Map<Seq<char>, JsonModel>;

    closed spec fn view(&self) -> Map<Seq<char>, JsonModel> {
        members(self.entries)
    }
}

impl JsonObject {
    /// Whether no key occurs twice, here or in a value.
    pub closed spec fn well_formed(self) -> bool {
        Json::Object(self.entries).well_formed()
    }

    /// An object without entries.
    pub fn new() -> (r: Self)
        ensures
            r.well_formed(),
            r@ == Map::<Seq<char>, JsonModel>::empty(),
    {
        let r: JsonObject = JsonObject { entries: Vec::new() };
        assert(r@ =~= Map::<Seq<char>, JsonModel>::empty());
        r
    }

    /// The object with a value under a key; one that was there before is replaced.
    pub fn with(self, key: &str, value: Json) -> (r: Self)
        requires
            self.well_formed(),
            value.well_formed(),
        ensures
            r.well_formed(),
            r@ == self@.insert(key@, value.model()),
    {
        let mut entries: Vec<(String, Json)> = self.entries;
        let ghost before = self.entries;
        let ghost model = value.model();
        let at: Option<usize> = find_key(&entries, key);
        let ghost place: int = match at {
            Some(i) => i as int,
            None => before@.len() as int,
        };
        match at {
            Some(i) => {
                entries.set(i, (key.to_owned(), value));
            },
            None => {
                entries.push((key.to_owned(), value));
            },
        }
        proof {
            assert(entries@[place].0@ == key@ && entries@[place].1 == value);
            assert forall|i: int, j: int| 0 <= i < j < entries@.len() implies #[trigger] entries@[i].0@
                != #[trigger] entries@[j].0@ by {
                if at is Some {
                    assert(entries@[i].0@ == before@[i].0@ && entries@[j].0@ == before@[j].0@);
                } else if j == place {
                    assert(entries@[i] == before@[i]);
                    assert(has_key(before@, before@[i].0@));
                } else {
                    assert(entries@[i] == before@[i] && entries@[j] == before@[j]);
                }
            }
            assert forall|i: int| 0 <= i < entries@.len() implies (
            #[trigger] entries@[i]).1.well_formed() by {
                if i != place {
                    assert(entries@[i] == before@[i]);
                }
            }
            let next = members(entries);
            let old_members = members(before);
            lemma_object_entry(entries, place);
            assert forall|k: Seq<char>|
                #![trigger next.dom().contains(k)]
                next.dom().contains(k) == (k == key@
                || old_members.dom().contains(k)) && (k != key@ && old_members.dom().contains(k)
                ==> next[k] == old_members[k]) by {
                if k != key@ && has_key(before@, k) {
                    let i = choose|i: int| 0 <= i < before@.len() && #[trigger] before@[i].0@ == k;
                    assert(entries@[i] == before@[i]);
                    lemma_object_entry(entries, i);
                    lemma_object_entry(before, i);
                }
                if k != key@ && has_key(entries@, k) {
                    let i = choose|i: int| 0 <= i < entries@.len() && #[trigger] entries@[i].0@ == k;
                    assert(entries@[i] == before@[i]);
                    assert(has_key(before@, k));
                }
            }
            assert(next =~= old_members.insert(key@, model));
        }
        JsonObject { entries }
    }

    /// The finished object.
    pub fn build(self) -> (r: Json)
        requires
            self.well_formed(),
        ensures
            r.well_formed(),
            r.model() == JsonModel::Object(self@),
    {
        Json::Object(self.entries)
    }
}

} // verus!
