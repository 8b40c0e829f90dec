//! Reading back what was written: server-sent events.

use vstd::prelude::*;

use crate::http::sse::{
    join_lines, sse_data, sse_field, sse_fields, sse_frame, sse_head, sse_line, sse_parse,
    without_crs, without_one_cr, SseEvent, SseFields,
};
use crate::text::{
    find_from, lemma_find_from, lemma_split_head, lemma_split_one, lemma_split_pieces, split,
    split_from,
};

verus! {

/// The fields after all the lines, from given fields on.
spec fn fold(fields: SseFields, lines: Seq<Seq<char>>) -> SseFields
    decreases lines.len(),
{
    if lines.len() == 0 {
        fields
    } else {
        sse_line(fold(fields, lines.drop_last()), lines.last())
    }
}

spec fn none() -> SseFields {
    SseFields { data: seq![], id: None, name: None }
}

proof fn lemma_fold_is_fields(lines: Seq<Seq<char>>)
    ensures
        fold(none(), lines) == sse_fields(lines),
    decreases lines.len(),
{
    if lines.len() > 0 {
        lemma_fold_is_fields(lines.drop_last());
    }
}

proof fn lemma_fold_concat(fields: SseFields, a: Seq<Seq<char>>, b: Seq<Seq<char>>)
    ensures
        fold(fields, a + b) == fold(fold(fields, a), b),
    decreases b.len(),
{
    if b.len() == 0 {
        assert(a + b =~= a);
    } else {
        lemma_fold_concat(fields, a, b.drop_last());
        assert((a + b).drop_last() =~= a + b.drop_last());
        assert((a + b).last() == b.last());
    }
}

proof fn lemma_fold_one(fields: SseFields, line: Seq<char>)
    ensures
        fold(fields, seq![line]) == sse_line(fields, line),
{
    reveal_with_fuel(fold, 2);
    assert(seq![line].drop_last() =~= Seq::<Seq<char>>::empty());
}

/// A line that holds no carriage return is not shortened.
proof fn lemma_no_crs(line: Seq<char>)
    requires
        !line.contains('\r'),
    ensures
        without_crs(line) == line,
        without_one_cr(line) == line,
{
    if line.len() > 0 {
        assert(line.contains(line[line.len() - 1]));
    }
}

/// The field of a line made of a name without colon, a colon, a space and a value.
proof fn lemma_field(name: Seq<char>, value: Seq<char>)
    requires
        !name.contains(':'),
    ensures
        sse_field(name + ": "@ + value) == (name, value),
{
    reveal_strlit(": ");
    let line = name + ": "@ + value;
    let n = name.len() as int;
    lemma_find_from(line, ':', 0);
    let p = find_from(line, ':', 0);
    assert(line[n] == ':');
    assert(p == n) by {
        if p < n {
            assert(name[p] == line[p]);
        }
    }
    assert(line.subrange(0, n) =~= name);
    let v = line.subrange(n + 1, line.len() as int);
    assert(v[0] == ' ');
    assert(v.subrange(1, v.len() as int) =~= value);
}

/// The lines of an event's data.
spec fn data_lines(pieces: Seq<Seq<char>>, i: int) -> Seq<Seq<char>>
    decreases pieces.len() - i,
{
    if i >= pieces.len() {
        seq![]
    } else if i + 1 < pieces.len() || pieces[i].len() > 0 {
        seq!["data: "@ + pieces[i]] + data_lines(pieces, i + 1)
    } else {
        seq!["data:"@] + data_lines(pieces, i + 1)
    }
}

spec fn plain(pieces: Seq<Seq<char>>) -> bool {
    forall|k: int|
        0 <= k < pieces.len() ==> !(#[trigger] pieces[k]).contains('\n') && !pieces[k].contains(
            '\r',
        )
}

/// The data part of a frame is cut into its lines.
proof fn lemma_data_lines(pieces: Seq<Seq<char>>, i: int, tail: Seq<char>)
    requires
        plain(pieces),
        0 <= i <= pieces.len(),
    ensures
        split(sse_data(pieces, i) + tail, '\n') == data_lines(pieces, i) + split(tail, '\n'),
    decreases pieces.len() - i,
{
    reveal_strlit("data: ");
    reveal_strlit("data:\n");
    reveal_strlit("data:");
    reveal_strlit("\n");
    if i >= pieces.len() {
        assert(sse_data(pieces, i) + tail =~= tail);
        assert(data_lines(pieces, i) + split(tail, '\n') =~= split(tail, '\n'));
    } else {
        lemma_data_lines(pieces, i + 1, tail);
        lemma_no_crs(pieces[i]);
        let more = sse_data(pieces, i + 1) + tail;
        if i + 1 < pieces.len() || pieces[i].len() > 0 {
            let line = "data: "@ + pieces[i];
            assert(!line.contains('\n')) by {
                if line.contains('\n') {
                    let w = choose|w: int| 0 <= w < line.len() && line[w] == '\n';
                    if w >= 6 {
                        assert(pieces[i][w - 6] == '\n');
                        assert(pieces[i].contains('\n'));
                    }
                }
            }
            assert(sse_data(pieces, i) + tail =~= line + seq!['\n'] + more);
            lemma_split_head(line, '\n', more);
            assert(seq![line] + (data_lines(pieces, i + 1) + split(tail, '\n')) =~= data_lines(
                pieces,
                i,
            ) + split(tail, '\n'));
        } else {
            let line = "data:"@;
            assert(!line.contains('\n'));
            assert(sse_data(pieces, i) + tail =~= line + seq!['\n'] + more);
            lemma_split_head(line, '\n', more);
            assert(seq![line] + (data_lines(pieces, i + 1) + split(tail, '\n')) =~= data_lines(
                pieces,
                i,
            ) + split(tail, '\n'));
        }
    }
}

/// Reading data lines adds their pieces.
proof fn lemma_fold_data(fields: SseFields, pieces: Seq<Seq<char>>, i: int)
    requires
        plain(pieces),
        0 <= i <= pieces.len(),
    ensures
        fold(fields, data_lines(pieces, i)) == (SseFields {
            data: fields.data + pieces.subrange(i, pieces.len() as int),
            ..fields
        }),
    decreases pieces.len() - i,
{
    reveal_strlit("data: ");
    reveal_strlit("data:");
    reveal_strlit("data");
    reveal_strlit(": ");
    if i >= pieces.len() {
        assert(fields.data + pieces.subrange(i, pieces.len() as int) =~= fields.data);
    } else {
        let piece = pieces[i];
        let line = if i + 1 < pieces.len() || piece.len() > 0 {
            "data: "@ + piece
        } else {
            "data:"@
        };
        assert(data_lines(pieces, i) == seq![line] + data_lines(pieces, i + 1));
        assert(!line.contains('\r')) by {
            if line.contains('\r') {
                let w = choose|w: int| 0 <= w < line.len() && line[w] == '\r';
                if w >= 6 {
                    assert(piece[w - 6] == '\r');
                    assert(piece.contains('\r'));
                }
            }
        }
        lemma_no_crs(line);
        assert(sse_field(line) == ("data"@, piece)) by {
            if i + 1 < pieces.len() || piece.len() > 0 {
                assert(line =~= "data"@ + ": "@ + piece);
                lemma_field("data"@, piece);
            } else {
                lemma_find_from(line, ':', 0);
                let p = find_from(line, ':', 0);
                assert(line[4] == ':');
                assert(p == 4);
                assert(line.subrange(0, 4) =~= "data"@);
                assert(line.subrange(5, 5) =~= piece);
            }
        }
        assert(line[0] == 'd');
        let next = sse_line(fields, line);
        assert(next == (SseFields { data: fields.data.push(piece), ..fields }));
        lemma_fold_one(fields, line);
        lemma_fold_concat(fields, seq![line], data_lines(pieces, i + 1));
        lemma_fold_data(next, pieces, i + 1);
        assert(fields.data.push(piece) + pieces.subrange(i + 1, pieces.len() as int)
            =~= fields.data + pieces.subrange(i, pieces.len() as int));
    }
}

/// A first line in front of joined lines.
proof fn lemma_join_front(first: Seq<char>, rest: Seq<Seq<char>>)
    requires
        rest.len() >= 1,
    ensures
        join_lines(seq![first] + rest) == first + seq!['\n'] + join_lines(rest),
    decreases rest.len(),
{
    let all = seq![first] + rest;
    assert(all.last() == rest.last());
    assert(all.drop_last() =~= seq![first] + rest.drop_last());
    if rest.len() == 1 {
        assert(all.drop_last() =~= seq![first]);
        assert(join_lines(seq![first]) == first);
    } else {
        lemma_join_front(first, rest.drop_last());
        assert(first + seq!['\n'] + join_lines(rest.drop_last()) + seq!['\n'] + rest.last()
            =~= first + seq!['\n'] + (join_lines(rest.drop_last()) + seq!['\n'] + rest.last()));
    }
}

/// Joining the lines of a text gives the text back.
pub proof fn lemma_join_split(s: Seq<char>, i: int)
    requires
        0 <= i <= s.len(),
    ensures
        join_lines(split_from(s, '\n', i)) == s.subrange(i, s.len() as int),
    decreases s.len() - i,
{
    lemma_find_from(s, '\n', i);
    let p = find_from(s, '\n', i);
    if p < s.len() {
        lemma_join_split(s, p + 1);
        lemma_split_pieces(s, '\n', p + 1);
        lemma_join_front(s.subrange(i, p), split_from(s, '\n', p + 1));
        assert(s.subrange(i, p) + seq!['\n'] + s.subrange(p + 1, s.len() as int) =~= s.subrange(
            i,
            s.len() as int,
        ));
    }
}

/// A head that is written on one line, or none.
pub open spec fn kept(value: Option<Seq<char>>) -> Option<Seq<char>> {
    match value {
        Some(v) => if v.contains('\n') || v.contains('\r') {
            None
        } else {
            Some(v)
        },
        None => None,
    }
}

spec fn head_lines(name: Seq<char>, value: Option<Seq<char>>) -> Seq<Seq<char>> {
    match kept(value) {
        Some(v) => seq![name + ": "@ + v],
        None => seq![],
    }
}

proof fn lemma_head(name: Seq<char>, value: Option<Seq<char>>, tail: Seq<char>)
    requires
        !name.contains('\n'),
    ensures
        split(sse_head(name, value) + tail, '\n') == head_lines(name, value) + split(tail, '\n'),
{
    reveal_strlit(": ");
    reveal_strlit("\n");
    match kept(value) {
        Some(v) => {
            let line = name + ": "@ + v;
            assert(!line.contains('\n')) by {
                if line.contains('\n') {
                    let w = choose|w: int| 0 <= w < line.len() && line[w] == '\n';
                    let n = name.len() as int;
                    if w < n {
                        assert(name[w] == '\n');
                    } else if w >= n + 2 {
                        assert(v[w - n - 2] == '\n');
                    }
                }
            }
            assert(sse_head(name, value) + tail =~= line + seq!['\n'] + tail);
            lemma_split_head(line, '\n', tail);
        },
        None => {
            assert(sse_head(name, value) + tail =~= tail);
            assert(head_lines(name, value) + split(tail, '\n') =~= split(tail, '\n'));
        },
    }
}

/// Reading a frame gives back the text, the id and the name that it was written of.
/// A text with carriage returns is outside the law, since they are line ends of
/// their own in a frame; an id or name that does not fit on a line is not written.
pub proof fn law_sse_frame_reads_back(
    id: Option<Seq<char>>,
    event: Option<Seq<char>>,
    text: Seq<char>,
)
    requires
        !text.contains('\r'),
    ensures
        sse_parse(sse_frame(id, event, text)) == Some(
            SseEvent { text, id: kept(id), name: kept(event) },
        ),
{
    reveal_strlit("id");
    reveal_strlit("event");
    reveal_strlit("data");
    reveal_strlit(": ");
    reveal_strlit("\n");
    let pieces = split(text, '\n');
    lemma_split_pieces(text, '\n', 0);
    assert(plain(pieces)) by {
        assert forall|k: int| 0 <= k < pieces.len() implies !(#[trigger] pieces[k]).contains('\n')
            && !pieces[k].contains('\r') by {
            if pieces[k].contains('\r') {
                assert(text.contains('\r'));
            }
        }
    }
    let frame = sse_frame(id, event, text);
    let data = sse_data(pieces, 0) + "\n"@;
    let rest = sse_head("event"@, event) + data;
    assert(frame =~= sse_head("id"@, id) + rest);
    lemma_head("id"@, id, rest);
    lemma_head("event"@, event, data);
    lemma_data_lines(pieces, 0, "\n"@);
    let empty = Seq::<char>::empty();
    assert("\n"@ =~= empty + seq!['\n'] + empty);
    lemma_split_head(empty, '\n', empty);
    lemma_split_one(empty, '\n');
    let blank = seq![empty] + seq![empty];
    assert(split("\n"@, '\n') == blank);
    let lines = split(frame, '\n');
    let a = head_lines("id"@, id);
    let b = head_lines("event"@, event);
    let c = data_lines(pieces, 0);
    assert(lines == a + (b + (c + blank)));
    lemma_fold_is_fields(lines);
    lemma_fold_concat(none(), a, b + (c + blank));
    let f1 = fold(none(), a);
    lemma_fold_concat(f1, b, c + blank);
    let f2 = fold(f1, b);
    lemma_fold_concat(f2, c, blank);
    lemma_fold_data(f2, pieces, 0);
    let f3 = fold(f2, c);
    lemma_fold_concat(f3, seq![empty], seq![empty]);
    lemma_fold_one(f3, empty);
    lemma_fold_one(sse_line(f3, empty), empty);
    assert(f1 == (SseFields { data: seq![], id: kept(id), name: None })) by {
        if let Some(v) = kept(id) {
            let line = "id"@ + ": "@ + v;
            lemma_fold_one(none(), line);
            assert(!line.contains('\r')) by {
                if line.contains('\r') {
                    let w = choose|w: int| 0 <= w < line.len() && line[w] == '\r';
                    if w >= 4 {
                        assert(v[w - 4] == '\r');
                    }
                }
            }
            lemma_no_crs(line);
            lemma_field("id"@, v);
            assert(line[0] == 'i');
            assert("id"@.len() != "data"@.len());
        }
    }
    assert(f2 == (SseFields { data: seq![], id: kept(id), name: kept(event) })) by {
        if let Some(v) = kept(event) {
            let line = "event"@ + ": "@ + v;
            lemma_fold_one(f1, line);
            assert(!line.contains('\r')) by {
                if line.contains('\r') {
                    let w = choose|w: int| 0 <= w < line.len() && line[w] == '\r';
                    if w >= 7 {
                        assert(v[w - 7] == '\r');
                    }
                }
            }
            lemma_no_crs(line);
            lemma_field("event"@, v);
            assert(line[0] == 'e');
            assert("event"@.len() != "data"@.len());
            assert("event"@.len() != "id"@.len());
        }
    }
    assert(f3.data =~= pieces);
    lemma_join_split(text, 0);
    assert(text.subrange(0, text.len() as int) =~= text);
}

/// A line of an event adds to its data, or sets its id or its name in place of an earlier
/// one. An empty line and a comment say nothing, and neither does a field of another
/// name.
pub proof fn law_lines_of_an_event(fields: SseFields, name: Seq<char>, value: Seq<char>)
    requires
        !value.contains('\r'),
        !name.contains('\r'),
        !name.contains(':'),
        name.len() > 0,
    ensures
        ({
            let read = sse_line(fields, name + ": "@ + value);
            &&& read.data == (if name == "data"@ {
                fields.data.push(value)
            } else {
                fields.data
            })
            &&& read.id == (if name == "id"@ {
                Some(value)
            } else {
                fields.id
            })
            &&& read.name == (if name == "event"@ {
                Some(value)
            } else {
                fields.name
            })
        }),
        sse_line(fields, seq![':'] + value) == fields,
        sse_line(fields, Seq::empty()) == fields,
{
    reveal_strlit(": ");
    reveal_strlit("data");
    reveal_strlit("id");
    reveal_strlit("event");
    assert("data"@.len() == 4 && "id"@.len() == 2 && "event"@.len() == 5);
    let line = name + ": "@ + value;
    assert(!line.contains('\r')) by {
        if line.contains('\r') {
            let i = choose|i: int| 0 <= i < line.len() && line[i] == '\r';
            if i < name.len() {
                assert(name[i] == '\r');
            } else if i >= name.len() + 2 {
                assert(value[i - name.len() - 2] == '\r');
            }
        }
    }
    lemma_no_crs(line);
    lemma_field(name, value);
    assert(line[0] == name[0]);
    assert(name[0] != ':') by {
        if name[0] == ':' {
            assert(name.contains(':'));
        }
    }
    let comment = seq![':'] + value;
    assert(!comment.contains('\r')) by {
        if comment.contains('\r') {
            let i = choose|i: int| 0 <= i < comment.len() && comment[i] == '\r';
            assert(value[i - 1] == '\r');
        }
    }
    lemma_no_crs(comment);
}

} // verus!
