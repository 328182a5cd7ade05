//! Data that comes as a text: JSON on the control socket and in the registry of mounts, TOML in the
//! configuration.
use crate::chars::same_text;
use vstd::prelude::*;

verus! {

/// A value of a JSON or TOML text.
#[derive(Debug)]
pub enum Data {
    Null,
    Flag(bool),
    /// A number, if it is a whole one that is neither negative nor too large.
    Number(Option<u64>),
    Text(String),
    /// A time.
    Time,
    List(Vec<Data>),
    /// Named values, in the order of their names.
    Fields(Vec<(String, Data)>),
}

/// A value of a JSON or TOML text, in the mathematical sense.
pub ghost enum DataView {
    Null,
    Flag(bool),
    Number(Option<u64>),
    Text(Seq<char>),
    Time,
    List(Seq<DataView>),
    Fields(Seq<(Seq<char>, DataView)>),
}

impl Data {
    pub open spec fn view(&self) -> DataView
        decreases self,
    {
        match self {
            Data::Null => DataView::Null,
            Data::Flag(b) => DataView::Flag(*b),
            Data::Number(n) => DataView::Number(*n),
            Data::Text(s) => DataView::Text(s@),
            Data::Time => DataView::Time,
            Data::List(l) => DataView::List(
                Seq::new(
                    l@.len(),
                    |i: int|
                        if 0 <= i < l@.len() {
                            l@[i].view()
                        } else {
                            DataView::Null
                        },
                ),
            ),
            Data::Fields(l) => DataView::Fields(
                Seq::new(
                    l@.len(),
                    |i: int|
                        if 0 <= i < l@.len() {
                            (l@[i].0@, l@[i].1.view())
                        } else {
                            (seq![], DataView::Null)
                        },
                ),
            ),
        }
    }
}

/// A JSON value of the `serde_json` crate.
#[verifier::external_type_specification]
#[verifier::external_body]
pub struct ExJsonValue(serde_json::Value);

/// A TOML value of the `toml` crate.
#[verifier::external_type_specification]
#[verifier::external_body]
pub struct ExTomlValue(toml::Value);

/// What a JSON text holds, or why it is none.
pub uninterp spec fn json_text(text: Seq<char>) -> Result<DataView, Seq<char>>;

/// What a JSON list holds, if the bytes are one.
pub uninterp spec fn json_list(bytes: Seq<u8>) -> Option<Seq<DataView>>;

/// What a JSON value holds.
pub uninterp spec fn json_of(v: serde_json::Value) -> DataView;

/// What a TOML text holds, or why it is none.
pub uninterp spec fn toml_text(text: Seq<char>) -> Result<DataView, Seq<char>>;

/// What a TOML value holds.
pub uninterp spec fn toml_of(v: toml::Value) -> DataView;

/// A value of an outside crate, with the values in it as they are.
pub enum Shape<'a, V> {
    Null,
    Flag(bool),
    Number(Option<u64>),
    Text(&'a String),
    Time,
    List(&'a Vec<V>),
    Fields(Vec<(&'a String, &'a V)>),
}

/// What values hold, each by itself.
pub open spec fn list_of<V>(l: Seq<V>, of: spec_fn(V) -> DataView) -> Seq<DataView> {
    Seq::new(l.len(), |i: int| of(l[i]))
}

/// What named values hold, each by itself.
pub open spec fn fields_of<V>(l: Seq<(&String, &V)>, of: spec_fn(V) -> DataView) -> Seq<
    (Seq<char>, DataView),
> {
    Seq::new(l.len(), |i: int| (l[i].0@, of(*l[i].1)))
}

/// What a value holds whose inner values hold what `of` says.
pub open spec fn shape_of<V>(s: Shape<V>, of: spec_fn(V) -> DataView) -> DataView {
    match s {
        Shape::Null => DataView::Null,
        Shape::Flag(b) => DataView::Flag(b),
        Shape::Number(n) => DataView::Number(n),
        Shape::Text(s) => DataView::Text(s@),
        Shape::Time => DataView::Time,
        Shape::List(l) => DataView::List(list_of(l@, of)),
        Shape::Fields(l) => DataView::Fields(fields_of(l@, of)),
    }
}

pub open spec fn json_shape(s: Shape<serde_json::Value>) -> DataView {
    shape_of(s, |v: serde_json::Value| json_of(v))
}

pub open spec fn toml_shape(s: Shape<toml::Value>) -> DataView {
    shape_of(s, |v: toml::Value| toml_of(v))
}

pub open spec fn json_values(l: Seq<serde_json::Value>) -> Seq<DataView> {
    list_of(l, |v: serde_json::Value| json_of(v))
}

/// Calls `serde_json::from_str`. Whether a text is JSON, what it holds and why it is none is a
/// function of the text, named [`json_text`].
#[verifier::external_body]
fn parse_json(text: &str) -> (r: Result<serde_json::Value, String>)
    ensures
        match r {
            Ok(v) => json_text(text@) == Ok::<_, Seq<char>>(json_of(v)),
            Err(e) => json_text(text@) == Err::<DataView, _>(e@),
        },
{
    serde_json::from_str::<serde_json::Value>(text).map_err(|e| e.to_string())
}

/// Calls `serde_json::from_slice` for a list of values. What it gives is a function of the bytes,
/// named [`json_list`]; bytes that it refuses give none.
#[verifier::external_body]
fn parse_list(bytes: &[u8]) -> (r: Option<Vec<serde_json::Value>>)
    ensures
        match r {
            Some(l) => json_list(bytes@) == Some(json_values(l@)),
            None => json_list(bytes@) is None,
        },
{
    serde_json::from_slice::<Vec<serde_json::Value>>(bytes).ok()
}

/// Tells the variants of a `serde_json::Value` apart, and calls `Number::as_u64` on a number.
#[verifier::external_body]
fn json_parts<'a>(v: &'a serde_json::Value) -> (s: Shape<'a, serde_json::Value>)
    ensures
        json_shape(s) == json_of(*v),
{
    match v {
        serde_json::Value::Null => Shape::Null,
        serde_json::Value::Bool(b) => Shape::Flag(*b),
        serde_json::Value::Number(n) => Shape::Number(n.as_u64()),
        serde_json::Value::String(s) => Shape::Text(s),
        serde_json::Value::Array(l) => Shape::List(l),
        serde_json::Value::Object(m) => Shape::Fields(m.iter().collect()),
    }
}

/// Calls `toml::from_str`. Whether a text is TOML, what it holds and why it is none is a function
/// of the text, named [`toml_text`].
#[verifier::external_body]
fn parse_toml(text: &str) -> (r: Result<toml::Value, String>)
    ensures
        match r {
            Ok(v) => toml_text(text@) == Ok::<_, Seq<char>>(toml_of(v)),
            Err(e) => toml_text(text@) == Err::<DataView, _>(e@),
        },
{
    toml::from_str::<toml::Value>(text).map_err(|e| e.to_string())
}

/// Tells the variants of a `toml::Value` apart.
#[verifier::external_body]
fn toml_parts<'a>(v: &'a toml::Value) -> (s: Shape<'a, toml::Value>)
    ensures
        toml_shape(s) == toml_of(*v),
{
    match v {
        toml::Value::String(s) => Shape::Text(s),
        toml::Value::Integer(n) => Shape::Number((*n).try_into().ok()),
        toml::Value::Float(_) => Shape::Number(None),
        toml::Value::Boolean(b) => Shape::Flag(*b),
        toml::Value::Datetime(_) => Shape::Time,
        toml::Value::Array(l) => Shape::List(l),
        toml::Value::Table(m) => Shape::Fields(m.iter().collect()),
    }
}

/// What a JSON value holds.
fn json_data(v: &serde_json::Value) -> (d: Data)
    ensures
        d@ == json_of(*v),
    decreases json_of(*v),
{
    match json_parts(v) {
        Shape::Null => Data::Null,
        Shape::Flag(b) => Data::Flag(b),
        Shape::Number(n) => Data::Number(n),
        Shape::Text(s) => Data::Text(s.as_str().to_owned()),
        Shape::Time => Data::Time,
        Shape::List(l) => {
            let mut list: Vec<Data> = Vec::new();
            let ghost all = json_values(l@);
            let mut i: usize = 0;
            while i < l.len()
                invariant
                    i <= l@.len(),
                    list@.len() == i,
                    all == json_values(l@),
                    json_of(*v) == DataView::List(all),
                    forall|j: int| 0 <= j < i ==> (#[trigger] list@[j])@ == all[j],
                decreases l@.len() - i,
            {
                proof {
                    assert(all[i as int] == json_of(l@[i as int]));
                    let whole = json_of(*v);
                    assert(decreases_to!(whole => whole->List_0));
                    assert(decreases_to!(whole->List_0 => whole->List_0[i as int]));
                }
                list.push(json_data(&l[i]));
                i = i + 1;
            }
            let d = Data::List(list);
            proof {
                assert(d@->List_0 =~= all);
            }
            d
        },
        Shape::Fields(l) => {
            let mut list: Vec<(String, Data)> = Vec::new();
            let ghost all = fields_of(l@, |v: serde_json::Value| json_of(v));
            let mut i: usize = 0;
            while i < l.len()
                invariant
                    i <= l@.len(),
                    list@.len() == i,
                    all == fields_of(l@, |v: serde_json::Value| json_of(v)),
                    json_of(*v) == DataView::Fields(all),
                    forall|j: int|
                        0 <= j < i ==> (#[trigger] list@[j]).0@ == all[j].0 && list@[j].1@
                            == all[j].1,
                decreases l@.len() - i,
            {
                proof {
                    assert(all[i as int].1 == json_of(*l@[i as int].1));
                    let whole = json_of(*v);
                    assert(decreases_to!(whole => whole->Fields_0));
                    assert(decreases_to!(whole->Fields_0 => whole->Fields_0[i as int]));
                    assert(decreases_to!(whole->Fields_0[i as int] => whole->Fields_0[i as int].1));
                }
                list.push((l[i].0.as_str().to_owned(), json_data(l[i].1)));
                i = i + 1;
            }
            let d = Data::Fields(list);
            proof {
                assert(d@->Fields_0 =~= all);
            }
            d
        },
    }
}

/// What a TOML value holds.
fn toml_data(v: &toml::Value) -> (d: Data)
    ensures
        d@ == toml_of(*v),
    decreases toml_of(*v),
{
    match toml_parts(v) {
        Shape::Null => Data::Null,
        Shape::Flag(b) => Data::Flag(b),
        Shape::Number(n) => Data::Number(n),
        Shape::Text(s) => Data::Text(s.as_str().to_owned()),
        Shape::Time => Data::Time,
        Shape::List(l) => {
            let mut list: Vec<Data> = Vec::new();
            let ghost all = list_of(l@, |v: toml::Value| toml_of(v));
            let mut i: usize = 0;
            while i < l.len()
                invariant
                    i <= l@.len(),
                    list@.len() == i,
                    all == list_of(l@, |v: toml::Value| toml_of(v)),
                    toml_of(*v) == DataView::List(all),
                    forall|j: int| 0 <= j < i ==> (#[trigger] list@[j])@ == all[j],
                decreases l@.len() - i,
            {
                proof {
                    assert(all[i as int] == toml_of(l@[i as int]));
                    let whole = toml_of(*v);
                    assert(decreases_to!(whole => whole->List_0));
                    assert(decreases_to!(whole->List_0 => whole->List_0[i as int]));
                }
                list.push(toml_data(&l[i]));
                i = i + 1;
            }
            let d = Data::List(list);
            proof {
                assert(d@->List_0 =~= all);
            }
            d
        },
        Shape::Fields(l) => {
            let mut list: Vec<(String, Data)> = Vec::new();
            let ghost all = fields_of(l@, |v: toml::Value| toml_of(v));
            let mut i: usize = 0;
            while i < l.len()
                invariant
                    i <= l@.len(),
                    list@.len() == i,
                    all == fields_of(l@, |v: toml::Value| toml_of(v)),
                    toml_of(*v) == DataView::Fields(all),
                    forall|j: int|
                        0 <= j < i ==> (#[trigger] list@[j]).0@ == all[j].0 && list@[j].1@
                            == all[j].1,
                decreases l@.len() - i,
            {
                proof {
                    assert(all[i as int].1 == toml_of(*l@[i as int].1));
                    let whole = toml_of(*v);
                    assert(decreases_to!(whole => whole->Fields_0));
                    assert(decreases_to!(whole->Fields_0 => whole->Fields_0[i as int]));
                    assert(decreases_to!(whole->Fields_0[i as int] => whole->Fields_0[i as int].1));
                }
                list.push((l[i].0.as_str().to_owned(), toml_data(l[i].1)));
                i = i + 1;
            }
            let d = Data::Fields(list);
            proof {
                assert(d@->Fields_0 =~= all);
            }
            d
        },
    }
}

/// Read a JSON text.
pub fn read_json(text: &str) -> (r: Result<Data, String>)
    ensures
        match r {
            Ok(d) => json_text(text@) == Ok::<_, Seq<char>>(d@),
            Err(e) => json_text(text@) == Err::<DataView, _>(e@),
        },
{
    match parse_json(text) {
        Ok(v) => Ok(json_data(&v)),
        Err(e) => Err(e),
    }
}

/// What some values are, each by itself.
pub open spec fn views_of(l: Seq<Data>) -> Seq<DataView> {
    Seq::new(l.len(), |i: int| l[i]@)
}

/// Read the bytes of a JSON list.
pub fn read_list(bytes: &[u8]) -> (r: Option<Vec<Data>>)
    ensures
        match r {
            Some(l) => json_list(bytes@) == Some(views_of(l@)),
            None => json_list(bytes@) is None,
        },
{
    let l = match parse_list(bytes) {
        Some(l) => l,
        None => {
            return None;
        },
    };
    let mut list: Vec<Data> = Vec::new();
    let mut i: usize = 0;
    while i < l.len()
        invariant
            i <= l@.len(),
            list@.len() == i,
            forall|j: int| 0 <= j < i ==> (#[trigger] list@[j])@ == json_of(l@[j]),
        decreases l@.len() - i,
    {
        list.push(json_data(&l[i]));
        i = i + 1;
    }
    proof {
        assert(views_of(list@) =~= json_values(l@));
    }
    Some(list)
}

/// Read a TOML text.
pub fn read_toml(text: &str) -> (r: Result<Data, String>)
    ensures
        match r {
            Ok(d) => toml_text(text@) == Ok::<_, Seq<char>>(d@),
            Err(e) => toml_text(text@) == Err::<DataView, _>(e@),
        },
{
    match parse_toml(text) {
        Ok(v) => Ok(toml_data(&v)),
        Err(e) => Err(e),
    }
}

/// The first of some named values that has a name; where none has, nothing.
pub open spec fn named(l: Seq<(Seq<char>, DataView)>, key: Seq<char>) -> DataView
    decreases l.len(),
{
    if l.len() == 0 {
        DataView::Null
    } else if l[0].0 == key {
        l[0].1
    } else {
        named(l.skip(1), key)
    }
}

impl DataView {
    /// What stands under a name; nothing where there are no names.
    pub open spec fn at(self, key: Seq<char>) -> DataView {
        match self {
            DataView::Fields(l) => named(l, key),
            _ => DataView::Null,
        }
    }

    pub open spec fn text(self) -> Option<Seq<char>> {
        match self {
            DataView::Text(s) => Some(s),
            _ => None,
        }
    }

    pub open spec fn text_or(self, other: Seq<char>) -> Seq<char> {
        match self {
            DataView::Text(s) => s,
            _ => other,
        }
    }

    pub open spec fn number_or(self, other: u64) -> u64 {
        match self {
            DataView::Number(Some(n)) => n,
            _ => other,
        }
    }

    /// Whether it is a flag that is set.
    pub open spec fn is_set(self) -> bool {
        self == DataView::Flag(true)
    }

    /// The items of a list; of anything else, none.
    pub open spec fn items(self) -> Seq<DataView> {
        match self {
            DataView::List(l) => l,
            _ => seq![],
        }
    }

    /// The named values of it, if it has names.
    pub open spec fn fields(self) -> Seq<(Seq<char>, DataView)> {
        match self {
            DataView::Fields(l) => l,
            _ => seq![],
        }
    }
}

/// A text that may be missing, by value.
pub open spec fn opt_text(s: Option<String>) -> Option<Seq<char>> {
    match s {
        Some(s) => Some(s@),
        None => None,
    }
}

impl Data {
    /// What stands under a name.
    pub fn at(&self, key: &str) -> (r: Option<&Data>)
        ensures
            match r {
                Some(d) => d@ == self@.at(key@),
                None => self@.at(key@) is Null,
            },
    {
        let l = match self {
            Data::Fields(l) => l,
            _ => {
                return None;
            },
        };
        let ghost all = self@->Fields_0;
        let mut i: usize = 0;
        proof {
            assert(all.skip(0) =~= all);
        }
        while i < l.len()
            invariant
                i <= l@.len(),
                all.len() == l@.len(),
                all == self@->Fields_0,
                *self == Data::Fields(*l),
                named(all, key@) == named(all.skip(i as int), key@),
            decreases l@.len() - i,
        {
            proof {
                assert(all[i as int] == (l@[i as int].0@, l@[i as int].1@));
                assert(all.skip(i as int)[0] == all[i as int]);
                assert(all.skip(i as int).skip(1) =~= all.skip(i + 1));
            }
            if same_text(l[i].0.as_str(), key) {
                return Some(&l[i].1);
            }
            i = i + 1;
        }
        None
    }

    /// The text under a name.
    pub fn text_at(&self, key: &str) -> (r: Option<String>)
        ensures
            opt_text(r) == self@.at(key@).text(),
    {
        match self.at(key) {
            Some(Data::Text(s)) => Some(s.as_str().to_owned()),
            _ => None,
        }
    }

    /// The text under a name, or another one.
    pub fn text_or(&self, key: &str, other: &str) -> (s: String)
        ensures
            s@ == self@.at(key@).text_or(other@),
    {
        match self.at(key) {
            Some(Data::Text(s)) => s.as_str().to_owned(),
            _ => other.to_owned(),
        }
    }

    /// The number under a name, or another one.
    pub fn number_or(&self, key: &str, other: u64) -> (n: u64)
        ensures
            n == self@.at(key@).number_or(other),
    {
        match self.at(key) {
            Some(Data::Number(Some(n))) => *n,
            _ => other,
        }
    }

    /// Whether a flag of this name is set.
    pub fn is_set(&self, key: &str) -> (r: bool)
        ensures
            r == self@.at(key@).is_set(),
    {
        match self.at(key) {
            Some(Data::Flag(b)) => *b,
            _ => false,
        }
    }

    /// The list under a name.
    pub fn list_at(&self, key: &str) -> (r: Option<&Vec<Data>>)
        ensures
            match r {
                Some(l) => self@.at(key@).items() == views_of(l@),
                None => self@.at(key@).items().len() == 0,
            },
    {
        match self.at(key) {
            Some(Data::List(l)) => {
                proof {
                    assert(self@.at(key@).items() =~= views_of(l@));
                }
                Some(l)
            },
            _ => None,
        }
    }
}

} // verus!
