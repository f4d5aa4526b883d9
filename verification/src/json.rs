//! JSON values: a plain data type, its model, and its exchange with `serde_json`.

use vstd::prelude::*;
use vstd::string::*;

use crate::text::same;

verus! {

/// A JSON value.
#[derive(Debug)]
pub enum Json {
    Null,
    Bool(bool),
    Unsigned(u64),
    Signed(i64),
    /// A number in the form in which `serde_json` keeps it.
    Number(serde_json::Number),
    Text(String),
    Array(Vec<Json>),
    /// The entries in the order in which they were set: of two entries with one key
    /// the later one counts.
    Object(Vec<(String, Json)>),
}

/// What a JSON value is: how an integer was written down and the order of an
/// object's entries make no difference.
#[verifier::ext_equal]
pub enum JsonView {
    Null,
    Bool(bool),
    Integer(int),
    /// A number that is no integer in the range of `i64` or `u64`.
    Decimal(serde_json::Number),
    Text(Seq<char>),
    Array(Seq<JsonView>),
    Object(Map<Seq<char>, JsonView>),
}

/// The type of the JSON values of `serde_json`.
#[verifier::external_type_specification]
#[verifier::external_body]
pub struct ExValue(serde_json::Value);

/// The type of the JSON numbers of `serde_json`.
#[verifier::external_type_specification]
#[verifier::external_body]
pub struct ExNumber(serde_json::Number);

/// The type of the JSON objects of `serde_json`.
#[verifier::external_type_specification]
#[verifier::external_body]
#[verifier::reject_recursive_types(K)]
#[verifier::reject_recursive_types(V)]
pub struct ExMap<K, V>(serde_json::Map<K, V>);

/// The type of the errors of `serde_json`.
#[verifier::external_type_specification]
#[verifier::external_body]
pub struct ExError(serde_json::Error);

/// What a `serde_json::Value` holds.
pub uninterp spec fn value_json(v: serde_json::Value) -> JsonView;

/// What a `serde_json::Map` holds.
pub uninterp spec fn map_json(m: serde_json::Map<String, serde_json::Value>) -> Map<Seq<char>, JsonView>;

/// What `serde_json::Number::as_u64` returns.
pub uninterp spec fn number_u64(n: serde_json::Number) -> Option<u64>;

/// What `serde_json::Number::as_i64` returns.
pub uninterp spec fn number_i64(n: serde_json::Number) -> Option<i64>;

/// What `serde_json::from_str` makes of a text: what it reads, or the error that it gives.
pub uninterp spec fn json_read(text: Seq<char>) -> Result<JsonView, serde_json::Error>;

/// What is read from a text: `None` where it is no JSON text.
pub open spec fn json_parsed(text: Seq<char>) -> Option<JsonView> {
    match json_read(text) {
        Ok(j) => Some(j),
        Err(_) => None,
    }
}

/// The text that `serde_json::to_string` writes for a value.
pub uninterp spec fn json_text(j: JsonView) -> Seq<char>;

/// Specifies `serde_json::Number::as_u64`: its result is a function of the number, and
/// an integer that it does not return is negative.
pub assume_specification[ serde_json::Number::as_u64 ](n: &serde_json::Number) -> (r: Option<u64>)
    ensures
        r == number_u64(*n),
        r is None && number_i64(*n) is Some ==> number_i64(*n)->0 < 0,
;

/// Specifies `serde_json::Number::as_i64`: its result is a function of the number.
pub assume_specification[ serde_json::Number::as_i64 ](n: &serde_json::Number) -> (r: Option<i64>)
    ensures
        r == number_i64(*n),
;

/// Specifies `clone` of `serde_json::Number`, which derives it: the same number.
pub assume_specification[ <serde_json::Number as Clone>::clone ](n: &serde_json::Number) -> (r:
    serde_json::Number)
    ensures
        r == *n,
;

/// Calls `from` of `serde_json::Number` for `u64`: `as_u64` gives the integer back.
#[verifier::external_body]
fn number_from_u64(u: u64) -> (r: serde_json::Number)
    ensures
        number_u64(r) == Some(u),
{
    serde_json::Number::from(u)
}

/// Calls `from` of `serde_json::Number` for `i64`: `as_i64` gives the integer back, and
/// so does `as_u64` where it is not negative.
#[verifier::external_body]
fn number_from_i64(i: i64) -> (r: serde_json::Number)
    ensures
        number_i64(r) == Some(i),
        number_u64(r) == (if i >= 0 {
            Some(i as u64)
        } else {
            None
        }),
{
    serde_json::Number::from(i)
}

/// What a number is: an integer where it can be read as `u64` or as `i64`.
pub open spec fn number_view(n: serde_json::Number) -> JsonView {
    match number_u64(n) {
        Some(u) => JsonView::Integer(u as int),
        None => match number_i64(n) {
            Some(i) => JsonView::Integer(i as int),
            None => JsonView::Decimal(n),
        },
    }
}

/// The outermost layer of a `serde_json::Value`.
pub(crate) enum Layer {
    Null,
    Bool(bool),
    Number(serde_json::Number),
    Text(String),
    Array(Vec<serde_json::Value>),
    Object(serde_json::Map<String, serde_json::Value>),
}

impl Layer {
    pub(crate) open spec fn json(self) -> JsonView {
        match self {
            Layer::Null => JsonView::Null,
            Layer::Bool(b) => JsonView::Bool(b),
            Layer::Number(n) => number_view(n),
            Layer::Text(s) => JsonView::Text(s@),
            Layer::Array(items) => JsonView::Array(
                items@.map_values(|v: serde_json::Value| value_json(v)),
            ),
            Layer::Object(m) => JsonView::Object(map_json(m)),
        }
    }
}

/// Takes a `serde_json::Value` apart by its variants.
#[verifier::external_body]
fn open_value(v: serde_json::Value) -> (r: Layer)
    ensures
        r.json() == value_json(v),
{
    match v {
        serde_json::Value::Null => Layer::Null,
        serde_json::Value::Bool(b) => Layer::Bool(b),
        serde_json::Value::Number(n) => Layer::Number(n),
        serde_json::Value::String(s) => Layer::Text(s),
        serde_json::Value::Array(items) => Layer::Array(items),
        serde_json::Value::Object(m) => Layer::Object(m),
    }
}

/// Builds a `serde_json::Value` by its variants.
#[verifier::external_body]
fn close_value(layer: Layer) -> (r: serde_json::Value)
    ensures
        value_json(r) == layer.json(),
{
    match layer {
        Layer::Null => serde_json::Value::Null,
        Layer::Bool(b) => serde_json::Value::Bool(b),
        Layer::Number(n) => serde_json::Value::Number(n),
        Layer::Text(s) => serde_json::Value::String(s),
        Layer::Array(items) => serde_json::Value::Array(items),
        Layer::Object(m) => serde_json::Value::Object(m),
    }
}

/// Calls `serde_json::Map::new`: an object without entries.
#[verifier::external_body]
fn empty_map() -> (r: serde_json::Map<String, serde_json::Value>)
    ensures
        map_json(r) == entries_map(Seq::empty()),
{
    serde_json::Map::new()
}

/// Calls `serde_json::Map::insert`: the entry is set, whether or not the key had one.
#[verifier::external_body]
fn map_insert(m: &mut serde_json::Map<String, serde_json::Value>, key: String, v: serde_json::Value)
    ensures
        map_json(*final(m)) == map_json(*old(m)).insert(key@, value_json(v)),
{
    m.insert(key, v);
}

/// Walks a `serde_json::Map` by its `into_iter`: each entry comes once.
#[verifier::external_body]
fn map_entries(m: serde_json::Map<String, serde_json::Value>) -> (r: Vec<(String, serde_json::Value)>)
    ensures
        forall|i: int, j: int| 0 <= i < j < r@.len() ==> (#[trigger] r@[i]).0@ != (#[trigger] r@[j]).0@,
        map_json(m) == entries_map(
            r@.map_values(|e: (String, serde_json::Value)| (e.0@, value_json(e.1))),
        ),
{
    m.into_iter().collect()
}

/// Calls `serde_json::from_str` for a `serde_json::Value`. Whether it succeeds, what it
/// then reads, and which error it gives otherwise, is a function of the text, named
/// `json_read`.
#[verifier::external_body]
fn read_value(text: &str) -> (r: Result<serde_json::Value, serde_json::Error>)
    ensures
        match json_read(text@) {
            Ok(j) => r matches Ok(v) && value_json(v) == j,
            Err(e) => r matches Err(error) && error == e,
        },
{
    serde_json::from_str(text)
}

/// Calls `serde_json::to_string` for a `serde_json::Value`, which does not fail. The
/// text is a function of what the value holds, named `json_text`. `serde_json::from_str`
/// reads the value back from it where no number is a fraction and arrays and objects
/// nest at most 127 deep, the deepest that it follows.
#[verifier::external_body]
fn write_value(v: &serde_json::Value) -> (r: Result<String, serde_json::Error>)
    ensures
        r is Ok,
        r->Ok_0@ == json_text(value_json(*v)),
        value_json(*v).readable(127) ==> json_parsed(r->Ok_0@) == Some(value_json(*v)),
{
    serde_json::to_string(v)
}

/// Calls `to_string` of `serde_json::Value`, which writes the text that
/// `serde_json::to_string` writes, so that `serde_json::from_str` reads it back in the
/// same cases.
#[verifier::external_body]
fn show_value(v: &serde_json::Value) -> (r: String)
    ensures
        r@ == json_text(value_json(*v)),
        value_json(*v).readable(127) ==> json_parsed(r@) == Some(value_json(*v)),
{
    v.to_string()
}

/// The object that setting the entries in order makes.
pub open spec fn entries_map(entries: Seq<(Seq<char>, JsonView)>) -> Map<Seq<char>, JsonView>
    decreases entries.len(),
{
    if entries.len() == 0 {
        Map::empty()
    } else {
        entries_map(entries.drop_last()).insert(entries.last().0, entries.last().1)
    }
}

impl JsonView {
    /// What an object has at a key.
    pub open spec fn get(self, key: Seq<char>) -> Option<JsonView> {
        match self {
            JsonView::Object(m) => if m.contains_key(key) {
                Some(m[key])
            } else {
                None
            },
            _ => None,
        }
    }

    /// What an object has at a key, null where it has nothing there.
    pub open spec fn at(self, key: Seq<char>) -> JsonView {
        match self.get(key) {
            Some(j) => j,
            None => JsonView::Null,
        }
    }

    /// The characters of a string.
    pub open spec fn text(self) -> Option<Seq<char>> {
        match self {
            JsonView::Text(s) => Some(s),
            _ => None,
        }
    }

    /// The items of an array.
    pub open spec fn items(self) -> Option<Seq<JsonView>> {
        match self {
            JsonView::Array(items) => Some(items),
            _ => None,
        }
    }

    /// An integer in the range of `u64`.
    pub open spec fn unsigned(self) -> Option<u64> {
        match self {
            JsonView::Integer(n) => if 0 <= n <= u64::MAX {
                Some(n as u64)
            } else {
                None
            },
            _ => None,
        }
    }

    /// No number is a fraction, and arrays and objects nest at most `depth` deep.
    pub open spec fn readable(self, depth: nat) -> bool
        decreases depth,
    {
        match self {
            JsonView::Decimal(_) => false,
            JsonView::Array(items) => {
                &&& depth > 0
                &&& forall|i: int|
                    0 <= i < items.len() ==> (#[trigger] items[i]).readable((depth - 1) as nat)
            },
            JsonView::Object(m) => {
                &&& depth > 0
                &&& forall|k: Seq<char>|
                    m.contains_key(k) ==> (#[trigger] m[k]).readable((depth - 1) as nat)
            },
            _ => true,
        }
    }
}

impl View for Json {
    type V = JsonView;

    open spec fn view(&self) -> JsonView {
        self.model()
    }
}

/// An entry that is set last under its key is the one that the object has.
pub proof fn lemma_entries_last(entries: Seq<(Seq<char>, JsonView)>, i: int)
    requires
        0 <= i < entries.len(),
        forall|j: int| i < j < entries.len() ==> (#[trigger] entries[j]).0 != entries[i].0,
    ensures
        entries_map(entries).contains_key(entries[i].0),
        entries_map(entries)[entries[i].0] == entries[i].1,
    decreases entries.len(),
{
    if i < entries.len() - 1 {
        assert(entries.drop_last()[i] == entries[i]);
        assert forall|j: int| i < j < entries.drop_last().len() implies (
        #[trigger] entries.drop_last()[j]).0 != entries.drop_last()[i].0 by {
            assert(entries.drop_last()[j] == entries[j]);
        }
        lemma_entries_last(entries.drop_last(), i);
        assert(entries[entries.len() - 1].0 != entries[i].0);
    }
}

/// An object has finitely many keys.
pub proof fn lemma_entries_finite(entries: Seq<(Seq<char>, JsonView)>)
    ensures
        entries_map(entries).dom().finite(),
    decreases entries.len(),
{
    if entries.len() > 0 {
        lemma_entries_finite(entries.drop_last());
    }
}

/// An object has no key but those that were set.
pub proof fn lemma_entries_absent(entries: Seq<(Seq<char>, JsonView)>, key: Seq<char>)
    requires
        forall|j: int| 0 <= j < entries.len() ==> (#[trigger] entries[j]).0 != key,
    ensures
        !entries_map(entries).contains_key(key),
    decreases entries.len(),
{
    if entries.len() > 0 {
        assert forall|j: int| 0 <= j < entries.drop_last().len() implies (
        #[trigger] entries.drop_last()[j]).0 != key by {
            assert(entries.drop_last()[j] == entries[j]);
        }
        lemma_entries_absent(entries.drop_last(), key);
        assert(entries[entries.len() - 1].0 != key);
    }
}

impl Json {
    /// What the value is.
    pub open spec fn model(self) -> JsonView
        decreases self,
    {
        match self {
            Json::Null => JsonView::Null,
            Json::Bool(b) => JsonView::Bool(b),
            Json::Unsigned(u) => JsonView::Integer(u as int),
            Json::Signed(i) => JsonView::Integer(i as int),
            Json::Number(n) => number_view(n),
            Json::Text(s) => JsonView::Text(s@),
            Json::Array(items) => JsonView::Array(Json::models(items@)),
            Json::Object(entries) => JsonView::Object(
                entries_map(Json::entry_models(entries@)),
            ),
        }
    }

    /// What each item is.
    pub open spec fn models(items: Seq<Json>) -> Seq<JsonView>
        decreases items,
    {
        Seq::new(
            items.len(),
            |i: int|
                if 0 <= i < items.len() {
                    items[i].model()
                } else {
                    JsonView::Null
                },
        )
    }

    /// What each entry is.
    pub open spec fn entry_models(entries: Seq<(String, Json)>) -> Seq<(Seq<char>, JsonView)>
        decreases entries,
    {
        Seq::new(
            entries.len(),
            |i: int|
                if 0 <= i < entries.len() {
                    (entries[i].0@, entries[i].1.model())
                } else {
                    (Seq::empty(), JsonView::Null)
                },
        )
    }

    /// The value that a `serde_json::Value` holds.
    pub fn from_value(v: serde_json::Value) -> (r: Json)
        ensures
            r@ == value_json(v),
        decreases value_json(v), 0nat,
    {
        let ghost whole = value_json(v);
        match open_value(v) {
            Layer::Null => Json::Null,
            Layer::Bool(b) => Json::Bool(b),
            Layer::Number(n) => match n.as_u64() {
                Some(u) => Json::Unsigned(u),
                None => match n.as_i64() {
                    Some(i) => Json::Signed(i),
                    None => Json::Number(n),
                },
            },
            Layer::Text(s) => Json::Text(s),
            Layer::Array(values) => {
                let ghost views = values@.map_values(|v: serde_json::Value| value_json(v));
                let mut items: Vec<Json> = Vec::new();
                for value in it: values
                    invariant
                        whole == value_json(v),
                        whole == JsonView::Array(views),
                        views == it.seq().map_values(|v: serde_json::Value| value_json(v)),
                        items@.len() == it.index(),
                        forall|i: int| 0 <= i < items@.len() ==> (#[trigger] items@[i])@ == views[i],
                {
                    proof {
                        let n = items@.len() as int;
                        assert(views[n] == value_json(value));
                        assert(decreases_to!(whole => whole->Array_0));
                        assert(decreases_to!(whole->Array_0 => whole->Array_0[n]));
                    }
                    items.push(Json::from_value(value));
                }
                assert(Json::models(items@) =~= views);
                Json::Array(items)
            },
            Layer::Object(m) => {
                let pairs = map_entries(m);
                let ghost views = pairs@.map_values(
                    |e: (String, serde_json::Value)| (e.0@, value_json(e.1)),
                );
                let mut entries: Vec<(String, Json)> = Vec::new();
                for pair in it: pairs
                    invariant
                        whole == value_json(v),
                        whole == JsonView::Object(entries_map(views)),
                        views == it.seq().map_values(
                            |e: (String, serde_json::Value)| (e.0@, value_json(e.1)),
                        ),
                        forall|i: int, j: int|
                            0 <= i < j < views.len() ==> (#[trigger] views[i]).0 != (#[trigger] views[j]).0,
                        entries@.len() == it.index(),
                        forall|i: int|
                            0 <= i < entries@.len() ==> (#[trigger] entries@[i]).0@ == views[i].0
                                && entries@[i].1@ == views[i].1,
                {
                    proof {
                        let n = entries@.len() as int;
                        assert(views[n] == (pair.0@, value_json(pair.1)));
                        lemma_entries_last(views, n);
                        lemma_entries_finite(views);
                        assert(decreases_to!(whole => whole->Object_0));
                        assert(decreases_to!(whole->Object_0 => whole->Object_0[pair.0@]));
                    }
                    entries.push((pair.0, Json::from_value(pair.1)));
                }
                assert(Json::entry_models(entries@) =~= views);
                Json::Object(entries)
            },
        }
    }

    /// A `serde_json::Value` that holds the value.
    pub fn to_value(&self) -> (r: serde_json::Value)
        ensures
            value_json(r) == self@,
        decreases *self,
    {
        match self {
            Json::Null => close_value(Layer::Null),
            Json::Bool(b) => close_value(Layer::Bool(*b)),
            Json::Unsigned(u) => close_value(Layer::Number(number_from_u64(*u))),
            Json::Signed(i) => close_value(Layer::Number(number_from_i64(*i))),
            Json::Number(n) => close_value(Layer::Number(n.clone())),
            Json::Text(s) => close_value(Layer::Text(s.clone())),
            Json::Array(items) => {
                let mut values: Vec<serde_json::Value> = Vec::new();
                for i in 0..items.len()
                    invariant
                        *self == Json::Array(*items),
                        values@.len() == i,
                        forall|j: int| 0 <= j < i ==> value_json(#[trigger] values@[j]) == items@[j]@,
                {
                    proof {
                        assert(decreases_to!(*self => self->Array_0));
                        assert(decreases_to!(*items => items@));
                        assert(decreases_to!(items@ => items@[i as int]));
                    }
                    values.push(items[i].to_value());
                }
                assert(values@.map_values(|v: serde_json::Value| value_json(v)) =~= Json::models(
                    items@,
                ));
                close_value(Layer::Array(values))
            },
            Json::Object(entries) => {
                let ghost views = Json::entry_models(entries@);
                let mut m = empty_map();
                assert(views.take(0) =~= Seq::empty());
                for i in 0..entries.len()
                    invariant
                        *self == Json::Object(*entries),
                        views == Json::entry_models(entries@),
                        map_json(m) == entries_map(views.take(i as int)),
                {
                    proof {
                        assert(decreases_to!(*self => self->Object_0));
                        assert(decreases_to!(*entries => entries@));
                        assert(decreases_to!(entries@ => entries@[i as int]));
                        assert(decreases_to!(entries@[i as int] => entries@[i as int].1));
                    }
                    let value = entries[i].1.to_value();
                    map_insert(&mut m, entries[i].0.clone(), value);
                    assert(views.take(i + 1).drop_last() =~= views.take(i as int));
                    assert(views.take(i + 1).last() == (entries@[i as int].0@, entries@[i as int].1@));
                }
                assert(views.take(entries.len() as int) =~= views);
                close_value(Layer::Object(m))
            },
        }
    }

    /// Reads a JSON text, or returns the error that reading it gives.
    pub fn parse(text: &str) -> (r: Result<Json, serde_json::Error>)
        ensures
            match json_read(text@) {
                Ok(j) => r matches Ok(v) && v@ == j,
                Err(e) => r matches Err(error) && error == e,
            },
    {
        match read_value(text) {
            Ok(v) => Ok(Json::from_value(v)),
            Err(e) => Err(e),
        }
    }

    /// The compact text of the value. It reads back as the value where no number is a
    /// fraction and arrays and objects nest at most 127 deep.
    pub fn to_text(&self) -> (r: String)
        ensures
            r@ == json_text(self@),
            self@.readable(127) ==> json_parsed(r@) == Some(self@),
    {
        match write_value(&self.to_value()) {
            Ok(s) => s,
            Err(_) => String::new(),
        }
    }

    /// The text in which the value is displayed, which is its compact text.
    pub fn display(&self) -> (r: String)
        ensures
            r@ == json_text(self@),
            self@.readable(127) ==> json_parsed(r@) == Some(self@),
    {
        show_value(&self.to_value())
    }

    /// What an object has at a key.
    pub fn get(&self, key: &str) -> (r: Option<&Json>)
        ensures
            match r {
                Some(j) => self@.get(key@) == Some(j@),
                None => self@.get(key@) is None,
            },
    {
        match self {
            Json::Object(entries) => {
                let ghost views = Json::entry_models(entries@);
                let mut i: usize = entries.len();
                while i > 0
                    invariant
                        i <= entries@.len(),
                        *self == Json::Object(*entries),
                        views == Json::entry_models(entries@),
                        forall|j: int| i <= j < views.len() ==> (#[trigger] views[j]).0 != key@,
                    decreases i,
                {
                    i = i - 1;
                    assert(views[i as int] == (entries@[i as int].0@, entries@[i as int].1@));
                    if same(entries[i].0.as_str(), key) {
                        proof {
                            lemma_entries_last(views, i as int);
                        }
                        return Some(&entries[i].1);
                    }
                }
                proof {
                    lemma_entries_absent(views, key@);
                }
                None
            },
            _ => None,
        }
    }

    /// The characters of a string.
    pub fn as_str(&self) -> (r: Option<&str>)
        ensures
            match r {
                Some(s) => self@.text() == Some(s@),
                None => self@.text() is None,
            },
    {
        match self {
            Json::Text(s) => Some(s.as_str()),
            _ => None,
        }
    }

    /// The items of an array.
    pub fn as_array(&self) -> (r: Option<&Vec<Json>>)
        ensures
            match r {
                Some(items) => self@.items() == Some(Json::models(items@)),
                None => self@.items() is None,
            },
    {
        match self {
            Json::Array(items) => Some(items),
            _ => None,
        }
    }

    /// An integer in the range of `u64`.
    pub fn as_u64(&self) -> (r: Option<u64>)
        ensures
            r == self@.unsigned(),
    {
        match self {
            Json::Unsigned(u) => Some(*u),
            Json::Signed(i) => if *i >= 0 {
                Some(*i as u64)
            } else {
                None
            },
            Json::Number(n) => n.as_u64(),
            _ => None,
        }
    }

    /// The characters of the string that an object has at a key.
    pub fn str_at(&self, key: &str) -> (r: Option<&str>)
        ensures
            match r {
                Some(s) => self@.at(key@).text() == Some(s@),
                None => self@.at(key@).text() is None,
            },
    {
        match self.get(key) {
            Some(j) => j.as_str(),
            None => None,
        }
    }

    /// The integer in the range of `u64` that an object has at a key.
    pub fn u64_at(&self, key: &str) -> (r: Option<u64>)
        ensures
            r == self@.at(key@).unsigned(),
    {
        match self.get(key) {
            Some(j) => j.as_u64(),
            None => None,
        }
    }

    /// The items of the array that an object has at a key.
    pub fn array_at(&self, key: &str) -> (r: Option<&Vec<Json>>)
        ensures
            match r {
                Some(items) => self@.at(key@).items() == Some(Json::models(items@)),
                None => self@.at(key@).items() is None,
            },
    {
        match self.get(key) {
            Some(j) => j.as_array(),
            None => None,
        }
    }
}

impl Clone for Json {
    fn clone(&self) -> (r: Self)
        ensures
            r@ == self@,
        decreases *self,
    {
        match self {
            Json::Null => Json::Null,
            Json::Bool(b) => Json::Bool(*b),
            Json::Unsigned(u) => Json::Unsigned(*u),
            Json::Signed(i) => Json::Signed(*i),
            Json::Number(n) => Json::Number(n.clone()),
            Json::Text(s) => Json::Text(s.clone()),
            Json::Array(items) => {
                let mut copies: Vec<Json> = Vec::new();
                for i in 0..items.len()
                    invariant
                        *self == Json::Array(*items),
                        copies@.len() == i,
                        forall|j: int| 0 <= j < i ==> (#[trigger] copies@[j])@ == items@[j]@,
                {
                    proof {
                        assert(decreases_to!(*self => self->Array_0));
                        assert(decreases_to!(*items => items@));
                        assert(decreases_to!(items@ => items@[i as int]));
                    }
                    copies.push((&items[i]).clone());
                }
                assert(Json::models(copies@) =~= Json::models(items@));
                Json::Array(copies)
            },
            Json::Object(entries) => {
                let mut copies: Vec<(String, Json)> = Vec::new();
                for i in 0..entries.len()
                    invariant
                        *self == Json::Object(*entries),
                        copies@.len() == i,
                        forall|j: int|
                            0 <= j < i ==> (#[trigger] copies@[j]).0@ == entries@[j].0@ && copies@[j].1@
                                == entries@[j].1@,
                {
                    proof {
                        assert(decreases_to!(*self => self->Object_0));
                        assert(decreases_to!(*entries => entries@));
                        assert(decreases_to!(entries@ => entries@[i as int]));
                        assert(decreases_to!(entries@[i as int] => entries@[i as int].1));
                    }
                    copies.push((entries[i].0.clone(), (&entries[i].1).clone()));
                }
                assert(Json::entry_models(copies@) =~= Json::entry_models(entries@));
                Json::Object(copies)
            },
        }
    }
}

/// An object by its entries in order.
pub open spec fn object(entries: Seq<(Seq<char>, JsonView)>) -> JsonView {
    JsonView::Object(entries_map(entries))
}

/// Sets an entry after those that stand there.
pub(crate) fn set_entry(entries: &mut Vec<(String, Json)>, key: &str, value: Json)
    ensures
        Json::entry_models(final(entries)@) == Json::entry_models(old(entries)@).push((key@, value@)),
{
    entries.push((key.to_owned(), value));
    assert(Json::entry_models(entries@) =~= Json::entry_models(old(entries)@).push((key@, value@)));
}

} // verus!
