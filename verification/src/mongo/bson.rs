//! BSON values and documents.

use vstd::prelude::*;

use crate::message::copy_bytes;
use crate::text::same;

verus! {

/// A BSON value of `mongodb::bson`. Only values of kinds that nothing here looks
/// into are kept in this form.
#[verifier::external_type_specification]
#[verifier::external_body]
pub struct ExBson(mongodb::bson::Bson);

/// `mongodb::bson::Bson` clones to the same value.
pub assume_specification[ <mongodb::bson::Bson as Clone>::clone ](
    value: &mongodb::bson::Bson,
) -> (copy: mongodb::bson::Bson)
    ensures
        copy == *value,
;

/// A BSON value.
#[derive(Debug, PartialEq)]
pub enum BsonValue {
    Null,
    Boolean(bool),
    Int32(i32),
    Int64(i64),
    Text(String),
    Binary { subtype: u8, bytes: Vec<u8> },
    /// An object identifier.
    ObjectId([u8; 12]),
    /// Milliseconds since the epoch.
    DateTime(i64),
    Array(Vec<BsonValue>),
    Document(Document),
    /// A value of any other kind.
    Other(mongodb::bson::Bson),
}

/// A BSON document: named values in order.
#[derive(Debug, PartialEq)]
pub struct Document {
    pub fields: Vec<(String, BsonValue)>,
}

/// A BSON value over mathematical values.
pub enum BsonView {
    Null,
    Boolean(bool),
    Int32(i32),
    Int64(i64),
    Text(Seq<char>),
    Binary(u8, Seq<u8>),
    ObjectId(Seq<u8>),
    DateTime(i64),
    Array(Seq<BsonView>),
    Document(Seq<(Seq<char>, BsonView)>),
    Other(mongodb::bson::Bson),
}

/// The fields of a document over mathematical values.
pub type Fields = Seq<(Seq<char>, BsonView)>;

/// A BSON value over mathematical values.
pub open spec fn value_of(b: BsonValue) -> BsonView
    decreases b,
{
    match b {
        BsonValue::Null => BsonView::Null,
        BsonValue::Boolean(x) => BsonView::Boolean(x),
        BsonValue::Int32(x) => BsonView::Int32(x),
        BsonValue::Int64(x) => BsonView::Int64(x),
        BsonValue::Text(s) => BsonView::Text(s@),
        BsonValue::Binary { subtype, bytes } => BsonView::Binary(subtype, bytes@),
        BsonValue::ObjectId(x) => BsonView::ObjectId(x@),
        BsonValue::DateTime(x) => BsonView::DateTime(x),
        BsonValue::Array(v) => BsonView::Array(
            Seq::new(
                v@.len(),
                |i: int|
                    if 0 <= i < v@.len() {
                        value_of(v@[i])
                    } else {
                        BsonView::Null
                    },
            ),
        ),
        BsonValue::Document(d) => BsonView::Document(fields_of(d)),
        BsonValue::Other(o) => BsonView::Other(o),
    }
}

/// The fields of a document over mathematical values.
pub open spec fn fields_of(d: Document) -> Fields
    decreases d,
{
    Seq::new(
        d.fields@.len(),
        |i: int|
            if 0 <= i < d.fields@.len() {
                (d.fields@[i].0@, value_of(d.fields@[i].1))
            } else {
                (seq![], BsonView::Null)
            },
    )
}

impl View for BsonValue {
    type V = BsonView;

    open spec fn view(&self) -> BsonView {
        value_of(*self)
    }
}

impl View for Document {
    type V = Fields;

    open spec fn view(&self) -> Fields {
        fields_of(*self)
    }
}

/// Values over mathematical values.
pub open spec fn values_of(v: Seq<BsonValue>) -> Seq<BsonView> {
    v.map_values(|b: BsonValue| b@)
}

/// An array holds the views of its items.
pub proof fn lemma_array(v: Vec<BsonValue>)
    ensures
        BsonValue::Array(v)@ == BsonView::Array(values_of(v@)),
{
    match BsonValue::Array(v)@ {
        BsonView::Array(items) => {
            assert(items =~= values_of(v@));
        },
        _ => {},
    }
}

/// The same values again.
pub fn copy_values(v: &Vec<BsonValue>) -> (out: Vec<BsonValue>)
    ensures
        values_of(out@) == values_of(v@),
    decreases v,
{
    let mut out: Vec<BsonValue> = Vec::new();
    let mut i: usize = 0;
    while i < v.len()
        invariant
            i <= v@.len(),
            out@.len() == i,
            forall|k: int| 0 <= k < i ==> (#[trigger] out@[k])@ == v@[k]@,
        decreases v@.len() - i,
    {
        out.push(v[i].copy());
        i += 1;
    }
    assert(values_of(out@) =~= values_of(v@));
    out
}

impl BsonValue {
    /// The same value again.
    pub fn copy(&self) -> (b: BsonValue)
        ensures
            b@ == self@,
        decreases self,
    {
        match self {
            BsonValue::Null => BsonValue::Null,
            BsonValue::Boolean(x) => BsonValue::Boolean(*x),
            BsonValue::Int32(x) => BsonValue::Int32(*x),
            BsonValue::Int64(x) => BsonValue::Int64(*x),
            BsonValue::Text(s) => BsonValue::Text(s.clone()),
            BsonValue::Binary { subtype, bytes } => BsonValue::Binary {
                subtype: *subtype,
                bytes: copy_bytes(bytes.as_slice()),
            },
            BsonValue::ObjectId(x) => BsonValue::ObjectId(*x),
            BsonValue::DateTime(x) => BsonValue::DateTime(*x),
            BsonValue::Array(v) => {
                let out = copy_values(v);
                proof {
                    lemma_array(out);
                    lemma_array(*v);
                }
                BsonValue::Array(out)
            },
            BsonValue::Document(d) => BsonValue::Document(d.copy()),
            BsonValue::Other(o) => BsonValue::Other(o.clone()),
        }
    }
}

/// The first position at or after `i` of a field, or the length.
pub open spec fn field_at(d: Fields, key: Seq<char>, i: int) -> int
    decreases d.len() - i,
{
    if i >= d.len() {
        d.len() as int
    } else if d[i].0 == key {
        i
    } else {
        field_at(d, key, i + 1)
    }
}

/// The value of a field.
pub open spec fn field(d: Fields, key: Seq<char>) -> Option<BsonView> {
    let i = field_at(d, key, 0);
    if i < d.len() {
        Some(d[i].1)
    } else {
        None
    }
}

/// A document with a value in a field: in place of the old one, or at the end.
pub open spec fn with_field(d: Fields, key: Seq<char>, value: BsonView) -> Fields {
    let i = field_at(d, key, 0);
    if i < d.len() {
        d.update(i, (key, value))
    } else {
        d.push((key, value))
    }
}

/// The wide integer in a field, or what is wrong with the field.
pub open spec fn long_in(d: Fields, key: Seq<char>) -> Result<i64, Seq<char>> {
    match field(d, key) {
        Some(BsonView::Int64(x)) => Ok(x),
        Some(_) => Err("field does not have the expected type"@),
        None => Err("field is not present"@),
    }
}

pub proof fn lemma_field_at(d: Fields, key: Seq<char>, i: int)
    requires
        0 <= i <= d.len(),
    ensures
        i <= field_at(d, key, i) <= d.len(),
        field_at(d, key, i) < d.len() ==> d[field_at(d, key, i)].0 == key,
        forall|k: int| i <= k < field_at(d, key, i) ==> (#[trigger] d[k]).0 != key,
    decreases d.len() - i,
{
    if i < d.len() && d[i].0 != key {
        lemma_field_at(d, key, i + 1);
    }
}

/// A position of a field with none before it is the first one.
pub proof fn lemma_field_at_is(d: Fields, key: Seq<char>, i: int, at: int)
    requires
        0 <= i <= at <= d.len(),
        at < d.len() ==> d[at].0 == key,
        forall|k: int| i <= k < at ==> (#[trigger] d[k]).0 != key,
    ensures
        field_at(d, key, i) == at,
    decreases at - i,
{
    if i < at {
        lemma_field_at_is(d, key, i + 1, at);
    }
}

/// What is read from a field is what was last put there, and putting leaves every
/// other field alone.
pub proof fn law_fields_give_back_values(
    d: Fields,
    key: Seq<char>,
    value: BsonView,
    other: Seq<char>,
)
    ensures
        field(with_field(d, key, value), key) == Some(value),
        other != key ==> field(with_field(d, key, value), other) == field(d, other),
{
    lemma_field_at(d, key, 0);
    lemma_field_at(d, other, 0);
    let at = field_at(d, key, 0);
    let o = field_at(d, other, 0);
    let out = with_field(d, key, value);
    lemma_field_at_is(out, key, 0, at);
    if other != key {
        if o < d.len() {
            lemma_field_at_is(out, other, 0, o);
        } else {
            lemma_field_at_is(out, other, 0, out.len() as int);
        }
    }
}

impl Document {
    /// A document without fields.
    pub fn new() -> (d: Self)
        ensures
            d@ == Fields::empty(),
    {
        let d = Document { fields: Vec::new() };
        assert(d@ =~= Fields::empty());
        d
    }

    fn position(&self, key: &str) -> (i: usize)
        ensures
            i == field_at(self@, key@, 0),
            i <= self.fields@.len(),
    {
        let mut i: usize = 0;
        while i < self.fields.len()
            invariant
                i <= self.fields@.len(),
                field_at(self@, key@, 0) == field_at(self@, key@, i as int),
            decreases self.fields@.len() - i,
        {
            assert(self@[i as int].0 == self.fields@[i as int].0@);
            if same(self.fields[i].0.as_str(), key) {
                return i;
            }
            i += 1;
        }
        i
    }

    /// The value of a field.
    pub fn get<'a>(&'a self, key: &str) -> (value: Option<&'a BsonValue>)
        ensures
            match value {
                Some(v) => field(self@, key@) == Some(v@),
                None => field(self@, key@) is None,
            },
    {
        let i: usize = self.position(key);
        if i < self.fields.len() {
            Some(&self.fields[i].1)
        } else {
            None
        }
    }

    /// Whether there is a field.
    pub fn contains_key(&self, key: &str) -> (res: bool)
        ensures
            res == (field(self@, key@) is Some),
    {
        self.position(key) < self.fields.len()
    }

    /// Puts a value into a field.
    pub fn insert(&mut self, key: String, value: BsonValue)
        ensures
            final(self)@ == with_field(old(self)@, key@, value@),
    {
        let i: usize = self.position(key.as_str());
        if i < self.fields.len() {
            self.fields.set(i, (key, value));
            assert(self@ =~= old(self)@.update(i as int, (key@, value@)));
        } else {
            self.fields.push((key, value));
            assert(self@ =~= old(self)@.push((key@, value@)));
        }
    }

    /// The document with a value in a field.
    pub fn with(self, key: &str, value: BsonValue) -> (d: Document)
        ensures
            d@ == with_field(self@, key@, value@),
    {
        let mut d = self;
        d.insert(key.to_owned(), value);
        d
    }

    /// The document with a value in a new last field.
    pub(crate) fn then_field(self, key: &str, value: BsonValue) -> (d: Document)
        ensures
            d@ == self@.push((key@, value@)),
    {
        let mut d = self;
        d.fields.push((key.to_owned(), value));
        assert(d@ =~= self@.push((key@, value@)));
        d
    }

    /// The wide integer in a field, or what is wrong with the field.
    pub fn get_i64(&self, key: &str) -> (n: Result<i64, &'static str>)
        ensures
            match n {
                Ok(x) => long_in(self@, key@) == Ok::<i64, Seq<char>>(x),
                Err(e) => long_in(self@, key@) == Err::<i64, Seq<char>>(e@),
            },
    {
        match self.get(key) {
            Some(BsonValue::Int64(x)) => Ok(*x),
            Some(_) => Err("field does not have the expected type"),
            None => Err("field is not present"),
        }
    }

    /// Whether there is no field.
    pub fn is_empty(&self) -> (res: bool)
        ensures
            res == (self@.len() == 0),
    {
        self.fields.len() == 0
    }

    /// The same document again.
    pub fn copy(&self) -> (d: Document)
        ensures
            d@ == self@,
        decreases self,
    {
        let mut out: Vec<(String, BsonValue)> = Vec::new();
        let mut i: usize = 0;
        while i < self.fields.len()
            invariant
                i <= self.fields@.len(),
                out@.len() == i,
                forall|k: int|
                    0 <= k < i ==> (#[trigger] out@[k]).0@ == self.fields@[k].0@ && out@[k].1@
                        == self.fields@[k].1@,
            decreases self.fields@.len() - i,
        {
            let name = self.fields[i].0.clone();
            let value = self.fields[i].1.copy();
            out.push((name, value));
            i += 1;
        }
        let d = Document { fields: out };
        assert(d@ =~= self@);
        d
    }
}

} // verus!
