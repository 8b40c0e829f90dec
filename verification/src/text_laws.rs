//! What holds of texts.

use vstd::prelude::*;

use crate::numbers::{
    decimal, digit, lemma_decimal_reads_back, lemma_signed_decimal_reads_back, signed_decimal,
    signed_value, unsigned_value,
};
use crate::text::{
    contains, is_space, lower, lower_all, same_ignoring_case, starts_with, trim, trim_end,
    trim_start,
};

verus! {

/// Whether every character is white space.
pub open spec fn all_space(s: Seq<char>) -> bool {
    forall|i: int| 0 <= i < s.len() ==> is_space(#[trigger] s[i])
}

/// Trimming takes the white space around a text away, and nothing else.
pub proof fn law_trimming(front: Seq<char>, body: Seq<char>, back: Seq<char>)
    requires
        all_space(front),
        all_space(back),
        body.len() > 0 ==> !is_space(body[0]) && !is_space(body.last()),
    ensures
        trim(front + body + back) == body,
{
    let s = front + body + back;
    if body.len() == 0 {
        let spaces = front + back;
        assert(s =~= spaces + Seq::<char>::empty());
        assert(all_space(spaces)) by {
            assert forall|i: int| 0 <= i < spaces.len() implies is_space(#[trigger] spaces[i]) by {
                if i < front.len() {
                    assert(is_space(front[i]));
                } else {
                    assert(is_space(back[i - front.len()]));
                }
            }
        }
        lemma_front(spaces, Seq::empty());
        assert(trim_end(Seq::<char>::empty()) =~= Seq::<char>::empty());
        assert(body =~= Seq::<char>::empty());
    } else {
        assert(s =~= front + (body + back));
        assert((body + back)[0] == body[0]);
        lemma_front(front, body + back);
        lemma_back(body, back);
    }
}

proof fn lemma_front(front: Seq<char>, rest: Seq<char>)
    requires
        all_space(front),
        rest.len() > 0 ==> !is_space(rest[0]),
    ensures
        trim_start(front + rest) == rest,
    decreases front.len(),
{
    let s = front + rest;
    if front.len() == 0 {
        assert(s =~= rest);
    } else {
        let tail = front.subrange(1, front.len() as int);
        assert(s[0] == front[0]);
        assert(is_space(front[0]));
        assert forall|i: int| 0 <= i < tail.len() implies is_space(#[trigger] tail[i]) by {
            assert(is_space(front[i + 1]));
        }
        lemma_front(tail, rest);
        assert(s.subrange(1, s.len() as int) =~= tail + rest);
    }
}

proof fn lemma_back(body: Seq<char>, back: Seq<char>)
    requires
        all_space(back),
        body.len() > 0 ==> !is_space(body.last()),
    ensures
        trim_end(body + back) == body,
    decreases back.len(),
{
    let s = body + back;
    if back.len() == 0 {
        assert(s =~= body);
    } else {
        let rest = back.drop_last();
        assert(s.last() == back.last());
        assert(is_space(back[back.len() - 1]));
        assert forall|i: int| 0 <= i < rest.len() implies is_space(#[trigger] rest[i]) by {
            assert(is_space(back[i]));
        }
        lemma_back(body, rest);
        assert(s.drop_last() =~= body + rest);
    }
}

/// Only the case of ASCII letters is set aside when names are compared.
pub proof fn law_comparing_without_case(a: Seq<char>, b: Seq<char>, c: char)
    ensures
        'A' <= c <= 'Z' ==> lower(c) as u32 == c as u32 + 32,
        !('A' <= c <= 'Z') ==> lower(c) == c,
        same_ignoring_case(a, a),
        same_ignoring_case(a, b) == same_ignoring_case(b, a),
        same_ignoring_case(a, b) <==> a.len() == b.len() && forall|i: int|
            0 <= i < a.len() ==> lower(#[trigger] a[i]) == lower(b[i]),
{
    if a.len() == b.len() && (forall|i: int|
        0 <= i < a.len() ==> lower(#[trigger] a[i]) == lower(b[i])) {
        assert(lower_all(a) =~= lower_all(b));
    }
    if same_ignoring_case(a, b) {
        assert(lower_all(a).len() == a.len() && lower_all(b).len() == b.len());
        assert forall|i: int| 0 <= i < a.len() implies lower(#[trigger] a[i]) == lower(b[i]) by {
            assert(lower_all(a)[i] == lower(a[i]));
            assert(lower_all(b)[i] == lower(b[i]));
        }
    }
}

/// A text contains what stands anywhere in it, and begins with what stands first.
pub proof fn law_what_texts_contain(a: Seq<char>, part: Seq<char>, b: Seq<char>)
    ensures
        contains(a + part + b, part),
        starts_with(part + b, part),
        a.len() < part.len() ==> !contains(a, part) && !starts_with(a, part),
{
    let s = a + part + b;
    let rest = s.skip(a.len() as int);
    assert(rest.take(part.len() as int) =~= part);
    assert(starts_with(rest, part));
    assert((part + b).take(part.len() as int) =~= part);
}

/// Numbers read back from their decimal texts, and no larger number than asked for is
/// read.
pub proof fn law_numbers_read_back(n: nat, max: int, m: i64)
    ensures
        n <= max ==> unsigned_value(decimal(n), 10, max) == Some(n as int),
        n > max ==> unsigned_value(decimal(n), 10, max) is None,
        signed_value(signed_decimal(m as int)) == Some(m as int),
{
    lemma_decimal_reads_back(n);
    assert(digit(decimal(n)[0]) >= 0);
    lemma_signed_decimal_reads_back(m);
}

} // verus!
