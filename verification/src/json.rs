//! JSON values, as the control socket carries them.

use vstd::prelude::*;

use crate::ratio::Ratio;

verus! {

/// A JSON value.
#[derive(Debug)]
pub enum Json {
    Null,
    Bool(bool),
    Number(u64),
    Integer(i64),
    Ratio(Ratio),
    Text(String),
    List(Vec<Json>),
    Record(Vec<(&'static str, Json)>),
}

/// The mathematical value of a [`Json`].
#[verifier::ext_equal]
pub enum JsonV {
    Null,
    Bool(bool),
    Number(u64),
    Integer(i64),
    Ratio(Ratio),
    Text(Seq<char>),
    List(Seq<JsonV>),
    Record(Seq<(Seq<char>, JsonV)>),
}

impl Json {
    pub open spec fn model(self) -> JsonV
        decreases self,
    {
        match self {
            Json::Null => JsonV::Null,
            Json::Bool(b) => JsonV::Bool(b),
            Json::Number(n) => JsonV::Number(n),
            Json::Integer(n) => JsonV::Integer(n),
            Json::Ratio(r) => JsonV::Ratio(r),
            Json::Text(t) => JsonV::Text(t@),
            Json::List(items) => JsonV::List(
                Seq::new(
                    items@.len(),
                    |i: int|
                        if 0 <= i < items@.len() {
                            items@[i].model()
                        } else {
                            JsonV::Null
                        },
                ),
            ),
            Json::Record(fields) => JsonV::Record(
                Seq::new(
                    fields@.len(),
                    |i: int|
                        if 0 <= i < fields@.len() {
                            (fields@[i].0@, fields@[i].1.model())
                        } else {
                            (""@, JsonV::Null)
                        },
                ),
            ),
        }
    }
}

impl View for Json {
    type V = JsonV;

    open spec fn view(&self) -> JsonV {
        self.model()
    }
}

/// A record under construction.
pub struct Fields {
    fields: Vec<(&'static str, Json)>,
}

impl View for Fields {
    type V = Seq<(Seq<char>, JsonV)>;

    closed spec fn view(&self) -> Seq<(Seq<char>, JsonV)> {
        Seq::new(self.fields@.len(), |i: int| (self.fields@[i].0@, self.fields@[i].1@))
    }
}

impl Fields {
    pub fn new() -> (fields: Fields)
        ensures
            fields@ == Seq::<(Seq<char>, JsonV)>::empty(),
    {
        let fields = Fields { fields: Vec::new() };
        assert(fields@ =~= Seq::<(Seq<char>, JsonV)>::empty());
        fields
    }

    /// Adds a field at the end.
    pub fn put(&mut self, key: &'static str, value: Json)
        ensures
            final(self)@ == old(self)@.push((key@, value@)),
    {
        self.fields.push((key, value));
        assert(self@ =~= old(self)@.push((key@, value@)));
    }

    /// Adds a text field at the end.
    pub fn put_text(&mut self, key: &'static str, value: &str)
        ensures
            final(self)@ == old(self)@.push((key@, JsonV::Text(value@))),
    {
        self.put(key, Json::Text(value.to_owned()));
    }

    /// Adds a number field at the end.
    pub fn put_number(&mut self, key: &'static str, value: u64)
        ensures
            final(self)@ == old(self)@.push((key@, JsonV::Number(value))),
    {
        self.put(key, Json::Number(value));
    }

    pub fn record(self) -> (record: Json)
        ensures
            record@ == JsonV::Record(self@),
    {
        let ghost want = self@;
        let record = Json::Record(self.fields);
        assert(record@->Record_0 =~= want);
        record
    }
}

/// A list of the items.
pub fn list(items: Vec<Json>) -> (list: Json)
    ensures
        list@ == JsonV::List(items@.map_values(|item: Json| item@)),
{
    let ghost want = items@.map_values(|item: Json| item@);
    let list = Json::List(items);
    assert(list@->List_0 =~= want);
    list
}

/// Text or nothing.
pub open spec fn text_or_null(text: Option<String>) -> JsonV {
    match text {
        Some(text) => JsonV::Text(text@),
        None => JsonV::Null,
    }
}

pub fn optional_text(text: &Option<String>) -> (value: Json)
    ensures
        value@ == text_or_null(*text),
{
    match text {
        Some(text) => Json::Text(text.clone()),
        None => Json::Null,
    }
}

/// A record without fields.
pub fn empty_record() -> (record: Json)
    ensures
        record@ == JsonV::Record(seq![]),
{
    Fields::new().record()
}

} // verus!
