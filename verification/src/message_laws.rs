//! What batches and identifiers keep.

use vstd::prelude::*;

use crate::ids::{bridge_id, header_id, hex_char, hex_digits, parsed_uuid, strip_all, uuid_text};
use crate::message::{
    batch_of, failures_in, law_reads_give_back_writes, lookup, responses_in, with_default,
    BatchView, FailureView, MessageView, Pairs, SendResultView, SentView,
};
use crate::numbers::{
    decimal, digit, digits_value, is_digits, lemma_decimal_reads_back, unsigned_value,
};
use crate::text::starts_with;

verus! {

/// A default is put only under a name that has no value, and changes no other name.
pub proof fn law_defaults(pairs: Pairs, key: Seq<char>, value: Seq<char>, other: Seq<char>)
    ensures
        lookup(with_default(pairs, key, value), key) == (match lookup(pairs, key) {
            Some(v) => Some(v),
            None => Some(value),
        }),
        other != key ==> lookup(with_default(pairs, key, value), other) == lookup(pairs, other),
{
    law_reads_give_back_writes(pairs, key, value);
}

/// The responses of a batch are those of its messages, in their order: of two batches,
/// one behind the other, first those of the first.
pub proof fn law_responses_keep_their_order(
    a: Seq<SendResultView>,
    b: Seq<SendResultView>,
    r: SendResultView,
)
    ensures
        responses_in(a + b) == responses_in(a) + responses_in(b),
        responses_in(seq![r]) == (match r.outcome {
            Ok(SentView::Response(m)) => seq![m],
            _ => seq![],
        }),
    decreases b.len(),
{
    reveal_with_fuel(responses_in, 2);
    assert(seq![r].drop_last() =~= seq![]);
    assert(seq![r].last() == r);
    assert(responses_in(seq![r]) =~= (match r.outcome {
        Ok(SentView::Response(m)) => seq![m],
        _ => seq![],
    }));
    if b.len() == 0 {
        assert(a + b =~= a);
        assert(responses_in(a) + responses_in(b) =~= responses_in(a));
    } else {
        law_responses_keep_their_order(a, b.drop_last(), r);
        assert((a + b).drop_last() =~= a + b.drop_last());
        assert((a + b).last() == b.last());
        assert(responses_in(a + b) =~= responses_in(a) + responses_in(b));
    }
}

/// The failures of a batch are those of its messages, each with its reason, in their
/// order.
pub proof fn law_failures_keep_their_order(
    a: Seq<SendResultView>,
    b: Seq<SendResultView>,
    r: SendResultView,
)
    ensures
        failures_in(a + b) == failures_in(a) + failures_in(b),
        failures_in(seq![r]) == (match r.outcome {
            Err(e) => seq![(r.message, e)],
            Ok(_) => seq![],
        }),
    decreases b.len(),
{
    reveal_with_fuel(failures_in, 2);
    assert(seq![r].drop_last() =~= seq![]);
    assert(seq![r].last() == r);
    assert(failures_in(seq![r]) =~= (match r.outcome {
        Err(e) => seq![(r.message, e)],
        Ok(_) => seq![],
    }));
    if b.len() == 0 {
        assert(a + b =~= a);
        assert(failures_in(a) + failures_in(b) =~= failures_in(a));
    } else {
        law_failures_keep_their_order(a, b.drop_last(), r);
        assert((a + b).drop_last() =~= a + b.drop_last());
        assert((a + b).last() == b.last());
        assert(failures_in(a + b) =~= failures_in(a) + failures_in(b));
    }
}

/// A batch result hands on every response and every failure that there was, and is a
/// plain acknowledgement exactly if there was neither.
pub proof fn law_batches_hand_everything_on(
    responses: Seq<MessageView>,
    failed: Seq<(MessageView, FailureView)>,
)
    ensures
        match batch_of(responses, failed) {
            BatchView::Ack => responses.len() == 0 && failed.len() == 0,
            BatchView::Partial { responses: r, failed: f } => {
                &&& responses.len() > 0 || failed.len() > 0
                &&& f == failed
                &&& match r {
                    Some(all) => all == responses && responses.len() > 0,
                    None => responses.len() == 0,
                }
            },
        },
{
}

/// Whether a number has no more than so many hexadecimal digits.
spec fn has_width(n: nat, width: nat) -> bool
    decreases width,
{
    if width == 0 {
        n == 0
    } else {
        has_width(n / 16, (width - 1) as nat)
    }
}

proof fn lemma_hex(n: nat, width: nat)
    requires
        has_width(n, width),
    ensures
        hex_digits(n, width).len() == width,
        digits_value(hex_digits(n, width), 16) == n,
        forall|i: int|
            0 <= i < width ==> 0 <= #[trigger] digit(hex_digits(n, width)[i]) < 16
                && hex_digits(n, width)[i] != 'x' && hex_digits(n, width)[i] != 'X',
    decreases width,
{
    if width > 0 {
        lemma_hex(n / 16, (width - 1) as nat);
        let front = hex_digits(n / 16, (width - 1) as nat);
        let out = hex_digits(n, width);
        let c = hex_char((n % 16) as int);
        assert(out == front.push(c));
        assert(out.drop_last() =~= front);
        assert(digit(c) == n % 16);
        assert(c != 'x' && c != 'X');
        assert forall|i: int| 0 <= i < width implies 0 <= #[trigger] digit(out[i]) < 16 && out[i]
            != 'x' && out[i] != 'X' by {
            if i < width - 1 {
                assert(out[i] == front[i]);
                assert(0 <= digit(front[i]) < 16);
            }
        }
    }
}

proof fn lemma_width(n: u128)
    ensures
        has_width(n as nat, 32),
{
    reveal_with_fuel(has_width, 33);
}

/// The thirty-two hexadecimal digits of an identifier denote it, so that no two
/// identifiers share them, nor their hyphenated texts.
pub proof fn law_identifier_texts(a: u128, b: u128)
    ensures
        hex_digits(a as nat, 32).len() == 32,
        unsigned_value(hex_digits(a as nat, 32), 16, u128::MAX as int) == Some(a as int),
        uuid_text(a).len() == 36,
        uuid_text(a)[8] == '-' && uuid_text(a)[13] == '-' && uuid_text(a)[18] == '-'
            && uuid_text(a)[23] == '-',
        uuid_text(a).subrange(0, 8) + uuid_text(a).subrange(9, 13) + uuid_text(a).subrange(14, 18)
            + uuid_text(a).subrange(19, 23) + uuid_text(a).subrange(24, 36) == hex_digits(
            a as nat,
            32,
        ),
        uuid_text(a) == uuid_text(b) ==> a == b,
{
    lemma_width(a);
    lemma_hex(a as nat, 32);
    lemma_width(b);
    lemma_hex(b as nat, 32);
    let d = hex_digits(a as nat, 32);
    assert(digit(d[0]) >= 0);
    assert(uuid_text(a).subrange(0, 8) + uuid_text(a).subrange(9, 13) + uuid_text(a).subrange(
        14,
        18,
    ) + uuid_text(a).subrange(19, 23) + uuid_text(a).subrange(24, 36) =~= d);
    let e = hex_digits(b as nat, 32);
    assert(uuid_text(b).subrange(0, 8) + uuid_text(b).subrange(9, 13) + uuid_text(b).subrange(
        14,
        18,
    ) + uuid_text(b).subrange(19, 23) + uuid_text(b).subrange(24, 36) =~= e);
}

/// An identifier that a header or a message holds in one of the usual forms is read as
/// such. Otherwise its hexadecimal digits behind `0x` are read, and in a message its
/// decimal digits too. An empty text is no identifier.
pub proof fn law_identifiers_are_read_back(text: Seq<char>, id: u128)
    ensures
        parsed_uuid(text) == Some(id) ==> header_id(text) == Some(id as int),
        parsed_uuid(text) == Some(id) && text.len() > 0 ==> bridge_id(text, parsed_uuid(text))
            == Some(id as int),
        text == "0x"@ + hex_digits(id as nat, 32) && parsed_uuid(text) is None ==> header_id(text)
            == Some(id as int) && bridge_id(text, parsed_uuid(text)) == Some(id as int),
        text == decimal(id as nat) && parsed_uuid(text) is None ==> bridge_id(
            text,
            parsed_uuid(text),
        ) == Some(id as int),
        bridge_id(Seq::empty(), None) is None,
{
    lemma_width(id);
    lemma_hex(id as nat, 32);
    let d = hex_digits(id as nat, 32);
    reveal_strlit("0x");
    reveal_strlit("0X");
    if text == "0x"@ + d {
        assert(text.skip(2) =~= d);
        assert(text.take(2) =~= "0x"@);
        reveal_with_fuel(strip_all, 3);
        assert(0 <= digit(d[1]) && d[1] != 'x' && d[1] != 'X');
        assert(!starts_with(d, "0x"@)) by {
            assert(d.take(2)[1] == d[1]);
        }
        assert(!starts_with(d, "0X"@)) by {
            assert(d.take(2)[1] == d[1]);
        }
        assert(strip_all(text, "0x"@) == d);
        assert(digit(d[0]) >= 0);
    }
    if text == decimal(id as nat) {
        lemma_decimal_reads_back(id as nat);
        assert(is_digits(text, 10));
        assert(digit(text[0]) >= 0);
        if text.len() >= 2 {
            assert(0 <= digit(text[1]) < 10);
            assert(text.take(2)[1] == text[1]);
        }
    }
}

} // verus!
