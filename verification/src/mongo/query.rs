//! What queries mean.
//!
//! A query is a document whose fields all have to hold of a stored document. The
//! functions here say which documents a query selects, so that the queries of readers
//! and consumers can be told by what they find.

use vstd::prelude::*;

use crate::mongo::bson::{field, with_field, BsonView, Fields};
use crate::mongo::filters::is_operator;
use crate::text::split_once;

verus! {

/// How the conditions are judged that are written with other operators than those that
/// are read here: given the name, the condition and the document.
pub type Judge = spec_fn(Seq<char>, BsonView, Fields) -> bool;

/// The value at a path: a field of the document, or behind a dot one of the document in
/// that field. Items of arrays are not looked into.
pub open spec fn value_at(doc: Fields, path: Seq<char>) -> Option<BsonView>
    decreases path.len(),
{
    match split_once(path, '.') {
        None => field(doc, path),
        Some((head, rest)) => match field(doc, head) {
            Some(BsonView::Document(inner)) => if rest.len() < path.len() {
                value_at(inner, rest)
            } else {
                None
            },
            _ => None,
        },
    }
}

/// The integer that a value is.
pub open spec fn number_of(v: BsonView) -> Option<int> {
    match v {
        BsonView::Int32(n) => Some(n as int),
        BsonView::Int64(n) => Some(n as int),
        _ => None,
    }
}

/// Whether one sequence of numbers comes before another, as words do in a dictionary.
pub open spec fn precedes(a: Seq<int>, b: Seq<int>) -> bool
    decreases a.len(),
{
    if b.len() == 0 {
        false
    } else if a.len() == 0 {
        true
    } else if a[0] != b[0] {
        a[0] < b[0]
    } else {
        precedes(a.skip(1), b.skip(1))
    }
}

/// Whether one value is less than another. Values of different kinds are not compared,
/// but for integers.
pub open spec fn less(a: BsonView, b: BsonView) -> bool {
    match (a, b) {
        (BsonView::Text(x), BsonView::Text(y)) => precedes(
            x.map_values(|c: char| c as int),
            y.map_values(|c: char| c as int),
        ),
        (BsonView::ObjectId(x), BsonView::ObjectId(y)) => precedes(
            x.map_values(|c: u8| c as int),
            y.map_values(|c: u8| c as int),
        ),
        (BsonView::Binary(s, x), BsonView::Binary(t, y)) => if x.len() != y.len() {
            x.len() < y.len()
        } else if s != t {
            s < t
        } else {
            precedes(x.map_values(|c: u8| c as int), y.map_values(|c: u8| c as int))
        },
        (BsonView::DateTime(x), BsonView::DateTime(y)) => x < y,
        _ => match (number_of(a), number_of(b)) {
            (Some(x), Some(y)) => x < y,
            _ => false,
        },
    }
}

/// Whether two values are the same, integers of any width by their number.
pub open spec fn equal(a: BsonView, b: BsonView) -> bool {
    match (number_of(a), number_of(b)) {
        (Some(x), Some(y)) => x == y,
        _ => a == b,
    }
}

/// Whether an operator is one that is read here.
pub open spec fn is_read(op: Seq<char>) -> bool {
    op == "$exists"@ || op == "$gt"@ || op == "$lt"@ || op == "$in"@
}

/// Whether a value is as an operator asks.
pub open spec fn satisfies(op: Seq<char>, operand: BsonView, value: Option<BsonView>) -> bool {
    if op == "$exists"@ {
        (value is Some) == (operand != BsonView::Boolean(false))
    } else if op == "$gt"@ {
        value matches Some(v) && less(operand, v)
    } else if op == "$lt"@ {
        value matches Some(v) && less(v, operand)
    } else {
        operand matches BsonView::Array(items) && value matches Some(v) && exists|k: int|
            0 <= k < items.len() && equal(v, #[trigger] items[k])
    }
}

/// Whether a condition is an operator with its operand, in place of a value.
pub open spec fn is_operation(condition: BsonView) -> bool {
    condition matches BsonView::Document(d) && d.len() == 1 && is_operator(d[0].0)
}

/// Whether a document meets the condition on a name that is not that of an operator. A
/// value asks for an equal one, and a null also for none.
pub open spec fn meets(
    other: Judge,
    name: Seq<char>,
    condition: BsonView,
    doc: Fields,
) -> bool {
    if is_operation(condition) {
        let op = condition->Document_0[0];
        if is_read(op.0) {
            satisfies(op.0, op.1, value_at(doc, name))
        } else {
            other(name, condition, doc)
        }
    } else if condition is Document {
        other(name, condition, doc)
    } else if condition is Null {
        value_at(doc, name) is None || value_at(doc, name) == Some(BsonView::Null)
    } else {
        value_at(doc, name) matches Some(v) && equal(v, condition)
    }
}

/// Whether a document meets one field of a query: all the queries that `$and` lists, one
/// of those that `$or` lists, or the condition on a name.
pub open spec fn meets_field(
    other: Judge,
    name: Seq<char>,
    condition: BsonView,
    doc: Fields,
) -> bool
    decreases condition,
{
    if name == "$and"@ {
        condition matches BsonView::Array(items) && forall|k: int|
            0 <= k < items.len() ==> meets_query(other, #[trigger] items[k], doc)
    } else if name == "$or"@ {
        condition matches BsonView::Array(items) && exists|k: int|
            0 <= k < items.len() && meets_query(other, #[trigger] items[k], doc)
    } else if is_operator(name) {
        other(name, condition, doc)
    } else {
        meets(other, name, condition, doc)
    }
}

/// Whether a document is selected by a query that stands inside another.
pub open spec fn meets_query(other: Judge, query: BsonView, doc: Fields) -> bool
    decreases query,
{
    match query {
        BsonView::Document(q) => forall|i: int|
            0 <= i < q.len() ==> meets_field(other, (#[trigger] q[i]).0, q[i].1, doc),
        _ => false,
    }
}

/// Whether a query selects a document: each of its fields has to hold.
pub open spec fn selects(other: Judge, query: Fields, doc: Fields) -> bool {
    meets_query(other, BsonView::Document(query), doc)
}

/// A document once values were put into fields of it.
pub open spec fn all_set(doc: Fields, values: Fields) -> Fields
    decreases values.len(),
{
    if values.len() == 0 {
        doc
    } else {
        with_field(all_set(doc, values.drop_last()), values.last().0, values.last().1)
    }
}

/// The wide integer in a field once a number was added to it. Nothing counts as zero.
pub open spec fn sum_in(doc: Fields, name: Seq<char>, n: i64) -> int {
    match field(doc, name) {
        Some(v) => match number_of(v) {
            Some(m) => m + n,
            None => n as int,
        },
        None => n as int,
    }
}

/// A document after one operation of an update: `$set` puts values into fields, and `$inc`
/// adds to the integer in a field.
pub open spec fn changed(op: Seq<char>, operand: BsonView, doc: Fields) -> Fields {
    match operand {
        BsonView::Document(values) => if op == "$set"@ {
            all_set(doc, values)
        } else if op == "$inc"@ && values.len() == 1 && values[0].1 is Int64 {
            let sum = sum_in(doc, values[0].0, values[0].1->Int64_0);
            with_field(doc, values[0].0, BsonView::Int64(sum as i64))
        } else {
            doc
        },
        _ => doc,
    }
}

/// A document after an update: each of its operations, in order.
pub open spec fn updated(update: Fields, doc: Fields) -> Fields
    decreases update.len(),
{
    if update.len() == 0 {
        doc
    } else {
        changed(update.last().0, update.last().1, updated(update.drop_last(), doc))
    }
}

} // verus!
