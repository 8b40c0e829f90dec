//! Content types, accepted encodings and protocol versions.

use vstd::prelude::*;
use vstd::slice::slice_subrange;

use crate::http::headers::{has_header, header_position, media_of, Header};
use crate::message::{Metadata, Pairs};
use crate::text::{
    char_rows, chars_of, find_from, is_space, lemma_find_from, lemma_split_head, lemma_split_one,
    lower, lower_all, lower_chars, same, same_chars, same_ignoring_case, same_text_ignoring_case,
    split, split_chars, string_of, trim, trim_chars, trim_start,
};

verus! {

/// The last component of a path among its first `n` pieces. Empty pieces and single
/// dots name nothing, and a parent directory has no file name.
pub open spec fn file_name(pieces: Seq<Seq<char>>, n: int) -> Option<Seq<char>>
    decreases n,
{
    if n <= 0 {
        None
    } else if pieces[n - 1].len() == 0 || pieces[n - 1] == "."@ {
        file_name(pieces, n - 1)
    } else if pieces[n - 1] == ".."@ {
        None
    } else {
        Some(pieces[n - 1])
    }
}

/// The last position before `n` that holds `c`, or -1.
pub open spec fn last_index(s: Seq<char>, c: char, n: int) -> int
    decreases n,
{
    if n <= 0 {
        -1
    } else if s[n - 1] == c {
        n - 1
    } else {
        last_index(s, c, n - 1)
    }
}

/// What follows the last dot of a path's file name. A dot in front of the name does
/// not count.
pub open spec fn path_extension(path: Seq<char>) -> Option<Seq<char>> {
    match file_name(split(path, '/'), split(path, '/').len() as int) {
        Some(name) => {
            let d = last_index(name, '.', name.len() as int);
            if d > 0 {
                Some(name.subrange(d + 1, name.len() as int))
            } else {
                None
            }
        },
        None => None,
    }
}

/// `s` without the dots in front.
pub open spec fn without_dots(s: Seq<char>) -> Seq<char>
    decreases s.len(),
{
    if s.len() > 0 && s[0] == '.' {
        without_dots(s.subrange(1, s.len() as int))
    } else {
        s
    }
}

/// The extension in a path, or the text itself where it is a bare extension, in
/// lower case.
pub open spec fn extension_of(path_or_extension: Seq<char>) -> Seq<char> {
    let input = trim(path_or_extension);
    let raw = match path_extension(input) {
        Some(ext) => if ext.len() > 0 {
            ext
        } else {
            bare(input)
        },
        None => bare(input),
    };
    lower_all(without_dots(trim(raw)))
}

/// A text without one dot in front.
pub open spec fn bare(input: Seq<char>) -> Seq<char> {
    if input.len() > 0 && input[0] == '.' {
        input.subrange(1, input.len() as int)
    } else {
        input
    }
}

/// The content type for an extension.
pub open spec fn content_type(ext: Seq<char>) -> Seq<char> {
    if ext == "html"@ || ext == "htm"@ {
        "text/html; charset=utf-8"@
    } else if ext == "css"@ {
        "text/css; charset=utf-8"@
    } else if ext == "js"@ || ext == "mjs"@ || ext == "cjs"@ {
        "text/javascript; charset=utf-8"@
    } else if ext == "json"@ || ext == "map"@ || ext == "jsonld"@ {
        "application/json; charset=utf-8"@
    } else if ext == "xml"@ {
        "application/xml; charset=utf-8"@
    } else if ext == "yaml"@ || ext == "yml"@ {
        "application/yaml; charset=utf-8"@
    } else if ext == "pdf"@ {
        "application/pdf"@
    } else if ext == "wasm"@ {
        "application/wasm"@
    } else if ext == "zip"@ {
        "application/zip"@
    } else if ext == "gz"@ {
        "application/gzip"@
    } else if ext == "tar"@ {
        "application/x-tar"@
    } else if ext == "7z"@ {
        "application/x-7z-compressed"@
    } else if ext == "rar"@ {
        "application/vnd.rar"@
    } else if ext == "svg"@ {
        "image/svg+xml"@
    } else if ext == "ico"@ {
        "image/x-icon"@
    } else if ext == "png"@ {
        "image/png"@
    } else if ext == "apng"@ {
        "image/apng"@
    } else if ext == "jpg"@ || ext == "jpeg"@ {
        "image/jpeg"@
    } else if ext == "gif"@ {
        "image/gif"@
    } else if ext == "webp"@ {
        "image/webp"@
    } else if ext == "avif"@ {
        "image/avif"@
    } else if ext == "bmp"@ {
        "image/bmp"@
    } else if ext == "tif"@ || ext == "tiff"@ {
        "image/tiff"@
    } else if ext == "woff"@ {
        "font/woff"@
    } else if ext == "woff2"@ {
        "font/woff2"@
    } else if ext == "ttf"@ {
        "font/ttf"@
    } else if ext == "otf"@ {
        "font/otf"@
    } else if ext == "eot"@ {
        "application/vnd.ms-fontobject"@
    } else if ext == "txt"@ || ext == "text"@ {
        "text/plain; charset=utf-8"@
    } else if ext == "md"@ {
        "text/markdown; charset=utf-8"@
    } else if ext == "csv"@ {
        "text/csv; charset=utf-8"@
    } else if ext == "tsv"@ {
        "text/tab-separated-values; charset=utf-8"@
    } else if ext == "ics"@ {
        "text/calendar; charset=utf-8"@
    } else if ext == "mp3"@ {
        "audio/mpeg"@
    } else if ext == "wav"@ {
        "audio/wav"@
    } else if ext == "ogg"@ || ext == "oga"@ {
        "audio/ogg"@
    } else if ext == "m4a"@ {
        "audio/mp4"@
    } else if ext == "mp4"@ || ext == "m4v"@ {
        "video/mp4"@
    } else if ext == "webm"@ {
        "video/webm"@
    } else if ext == "mov"@ {
        "video/quicktime"@
    } else if ext == "avi"@ {
        "video/x-msvideo"@
    } else if ext == "mpeg"@ || ext == "mpg"@ {
        "video/mpeg"@
    } else if ext == "ogv"@ {
        "video/ogg"@
    } else {
        "application/octet-stream"@
    }
}

fn find_extension(path: &[char]) -> (ext: Option<Vec<char>>)
    ensures
        match ext {
            Some(e) => path_extension(path@) == Some(e@),
            None => path_extension(path@) is None,
        },
{
    let pieces = split_chars(path, '/');
    let ghost rows = split(path@, '/');
    let dot = chars_of(".");
    let dots = chars_of("..");
    let mut n: usize = pieces.len();
    while n > 0
        invariant
            n <= pieces@.len(),
            char_rows(pieces@) == rows,
            rows == split(path@, '/'),
            dot@ == "."@,
            dots@ == ".."@,
            file_name(rows, rows.len() as int) == file_name(rows, n as int),
        decreases n,
    {
        assert(char_rows(pieces@)[n - 1] == pieces@[n - 1]@);
        let piece = &pieces[n - 1];
        if piece.len() == 0 || same_chars(piece.as_slice(), dot.as_slice()) {
            n -= 1;
            continue;
        }
        if same_chars(piece.as_slice(), dots.as_slice()) {
            return None;
        }
        let total: usize = piece.len();
        let mut d: usize = total;
        while d > 0 && piece[d - 1] != '.'
            invariant
                d <= total,
                total == piece@.len(),
                last_index(piece@, '.', total as int) == last_index(piece@, '.', d as int),
            decreases d,
        {
            d -= 1;
        }
        if d <= 1 {
            return None;
        }
        return Some(
            vstd::slice::slice_to_vec(slice_subrange(piece.as_slice(), d, total)),
        );
    }
    None
}

fn bare_chars<'a>(input: &'a [char]) -> (out: &'a [char])
    ensures
        out@ == bare(input@),
{
    if input.len() > 0 && input[0] == '.' {
        slice_subrange(input, 1, input.len())
    } else {
        input
    }
}

fn strip_dots<'a>(s: &'a [char]) -> (out: &'a [char])
    ensures
        out@ == without_dots(s@),
{
    let mut i: usize = 0;
    assert(s@.subrange(0, s@.len() as int) =~= s@);
    while i < s.len() && s[i] == '.'
        invariant
            i <= s@.len(),
            without_dots(s@) == without_dots(s@.subrange(i as int, s@.len() as int)),
        decreases s@.len() - i,
    {
        assert(s@.subrange(i as int, s@.len() as int).subrange(1, s@.len() - i) =~= s@.subrange(
            i + 1,
            s@.len() as int,
        ));
        i += 1;
    }
    slice_subrange(s, i, s.len())
}

fn type_of_extension(ext: &str) -> (media: &'static str)
    ensures
        media@ == content_type(ext@),
{
    if same(ext, "html") || same(ext, "htm") {
        "text/html; charset=utf-8"
    } else if same(ext, "css") {
        "text/css; charset=utf-8"
    } else if same(ext, "js") || same(ext, "mjs") || same(ext, "cjs") {
        "text/javascript; charset=utf-8"
    } else if same(ext, "json") || same(ext, "map") || same(ext, "jsonld") {
        "application/json; charset=utf-8"
    } else if same(ext, "xml") {
        "application/xml; charset=utf-8"
    } else if same(ext, "yaml") || same(ext, "yml") {
        "application/yaml; charset=utf-8"
    } else if same(ext, "pdf") {
        "application/pdf"
    } else if same(ext, "wasm") {
        "application/wasm"
    } else if same(ext, "zip") {
        "application/zip"
    } else if same(ext, "gz") {
        "application/gzip"
    } else if same(ext, "tar") {
        "application/x-tar"
    } else if same(ext, "7z") {
        "application/x-7z-compressed"
    } else if same(ext, "rar") {
        "application/vnd.rar"
    } else if same(ext, "svg") {
        "image/svg+xml"
    } else if same(ext, "ico") {
        "image/x-icon"
    } else if same(ext, "png") {
        "image/png"
    } else if same(ext, "apng") {
        "image/apng"
    } else if same(ext, "jpg") || same(ext, "jpeg") {
        "image/jpeg"
    } else if same(ext, "gif") {
        "image/gif"
    } else if same(ext, "webp") {
        "image/webp"
    } else if same(ext, "avif") {
        "image/avif"
    } else if same(ext, "bmp") {
        "image/bmp"
    } else if same(ext, "tif") || same(ext, "tiff") {
        "image/tiff"
    } else if same(ext, "woff") {
        "font/woff"
    } else if same(ext, "woff2") {
        "font/woff2"
    } else if same(ext, "ttf") {
        "font/ttf"
    } else if same(ext, "otf") {
        "font/otf"
    } else if same(ext, "eot") {
        "application/vnd.ms-fontobject"
    } else if same(ext, "txt") || same(ext, "text") {
        "text/plain; charset=utf-8"
    } else if same(ext, "md") {
        "text/markdown; charset=utf-8"
    } else if same(ext, "csv") {
        "text/csv; charset=utf-8"
    } else if same(ext, "tsv") {
        "text/tab-separated-values; charset=utf-8"
    } else if same(ext, "ics") {
        "text/calendar; charset=utf-8"
    } else if same(ext, "mp3") {
        "audio/mpeg"
    } else if same(ext, "wav") {
        "audio/wav"
    } else if same(ext, "ogg") || same(ext, "oga") {
        "audio/ogg"
    } else if same(ext, "m4a") {
        "audio/mp4"
    } else if same(ext, "mp4") || same(ext, "m4v") {
        "video/mp4"
    } else if same(ext, "webm") {
        "video/webm"
    } else if same(ext, "mov") {
        "video/quicktime"
    } else if same(ext, "avi") {
        "video/x-msvideo"
    } else if same(ext, "mpeg") || same(ext, "mpg") {
        "video/mpeg"
    } else if same(ext, "ogv") {
        "video/ogg"
    } else {
        "application/octet-stream"
    }
}

/// Guesses a content type from a file path or a bare file extension. Unknown
/// extensions are `application/octet-stream`.
pub fn guess_content_type(path_or_extension: &str) -> (media: &'static str)
    ensures
        media@ == content_type(extension_of(path_or_extension@)),
{
    let all = chars_of(path_or_extension);
    let input = trim_chars(all.as_slice());
    let found = match find_extension(input) {
        Some(ext) => if ext.len() > 0 {
            ext
        } else {
            vstd::slice::slice_to_vec(bare_chars(input))
        },
        None => vstd::slice::slice_to_vec(bare_chars(input)),
    };
    let lowered = lower_chars(strip_dots(trim_chars(found.as_slice())));
    let ext = string_of(lowered.as_slice());
    type_of_extension(ext.as_str())
}

/// Whether an extension has a content type of its own.
pub open spec fn is_known(ext: Seq<char>) -> bool {
    ||| ext == "html"@
    ||| ext == "htm"@
    ||| ext == "css"@
    ||| ext == "js"@
    ||| ext == "mjs"@
    ||| ext == "cjs"@
    ||| ext == "json"@
    ||| ext == "map"@
    ||| ext == "jsonld"@
    ||| ext == "xml"@
    ||| ext == "yaml"@
    ||| ext == "yml"@
    ||| ext == "pdf"@
    ||| ext == "wasm"@
    ||| ext == "zip"@
    ||| ext == "gz"@
    ||| ext == "tar"@
    ||| ext == "7z"@
    ||| ext == "rar"@
    ||| ext == "svg"@
    ||| ext == "ico"@
    ||| ext == "png"@
    ||| ext == "apng"@
    ||| ext == "jpg"@
    ||| ext == "jpeg"@
    ||| ext == "gif"@
    ||| ext == "webp"@
    ||| ext == "avif"@
    ||| ext == "bmp"@
    ||| ext == "tif"@
    ||| ext == "tiff"@
    ||| ext == "woff"@
    ||| ext == "woff2"@
    ||| ext == "ttf"@
    ||| ext == "otf"@
    ||| ext == "eot"@
    ||| ext == "txt"@
    ||| ext == "text"@
    ||| ext == "md"@
    ||| ext == "csv"@
    ||| ext == "tsv"@
    ||| ext == "ics"@
    ||| ext == "mp3"@
    ||| ext == "wav"@
    ||| ext == "ogg"@
    ||| ext == "oga"@
    ||| ext == "m4a"@
    ||| ext == "mp4"@
    ||| ext == "m4v"@
    ||| ext == "webm"@
    ||| ext == "mov"@
    ||| ext == "avi"@
    ||| ext == "mpeg"@
    ||| ext == "mpg"@
    ||| ext == "ogv"@
}

/// Whether a character is an ASCII letter or digit.
pub open spec fn is_alphanumeric(c: char) -> bool {
    'a' <= c <= 'z' || 'A' <= c <= 'Z' || '0' <= c <= '9'
}

/// Whether a text can be an extension: letters and digits, and at least one.
pub open spec fn is_extension(ext: Seq<char>) -> bool {
    ext.len() > 0 && forall|i: int| 0 <= i < ext.len() ==> is_alphanumeric(#[trigger] ext[i])
}

/// The ASCII upper case of every character.
pub open spec fn upper_all(s: Seq<char>) -> Seq<char> {
    s.map_values(
        |c: char|
            if 'a' <= c <= 'z' {
                ((c as u32) - 32) as char
            } else {
                c
            },
    )
}

proof fn lemma_last_index(s: Seq<char>, c: char, n: int)
    requires
        0 <= n <= s.len(),
    ensures
        -1 <= last_index(s, c, n) < n,
        last_index(s, c, n) >= 0 ==> s[last_index(s, c, n)] == c,
        forall|k: int| last_index(s, c, n) < k < n ==> s[k] != c,
    decreases n,
{
    if n > 0 && s[n - 1] != c {
        lemma_last_index(s, c, n - 1);
    }
}

proof fn lemma_trim_start(front: Seq<char>, rest: Seq<char>)
    requires
        rest.len() > 0,
        !is_space(rest[0]),
    ensures
        trim_start(front + rest) == trim_start(front) + rest,
        trim_start(front).len() > 0 ==> trim_start(front).last() == front.last(),
    decreases front.len(),
{
    let s = front + rest;
    if front.len() == 0 {
        assert(s =~= rest);
        assert(trim_start(front) + rest =~= rest);
    } else if is_space(front[0]) {
        let next = front.subrange(1, front.len() as int);
        assert(s.subrange(1, s.len() as int) =~= next + rest);
        lemma_trim_start(next, rest);
    }
}

/// What follows the last separator is the last piece.
proof fn lemma_split_last(head: Seq<char>, name: Seq<char>, sep: char)
    requires
        !name.contains(sep),
        head.len() == 0 || head.last() == sep,
    ensures
        split(head + name, sep).len() > 0,
        split(head + name, sep).last() == name,
    decreases head.len(),
{
    if head.len() == 0 {
        assert(head + name =~= name);
        lemma_split_one(name, sep);
    } else {
        lemma_find_from(head, sep, 0);
        let j = find_from(head, sep, 0);
        if j == head.len() {
            assert(head[head.len() - 1] == sep);
        }
        let piece = head.take(j);
        let rest = head.skip(j + 1);
        assert(!piece.contains(sep)) by {
            if piece.contains(sep) {
                let w = choose|w: int| 0 <= w < piece.len() && piece[w] == sep;
                assert(head[w] == sep);
            }
        }
        assert(head + name =~= piece + seq![sep] + (rest + name));
        lemma_split_head(piece, sep, rest + name);
        lemma_split_last(rest, name, sep);
    }
}

/// An extension has nothing in it that is cut off or cut at.
proof fn lemma_extension(ext: Seq<char>)
    requires
        is_extension(ext),
    ensures
        !is_space(ext[0]),
        !is_space(ext.last()),
        ext[0] != '.',
        ext.last() != '.',
        !ext.contains('/'),
        last_index(ext, '.', ext.len() as int) == -1,
        trim(ext) == ext,
        without_dots(ext) == ext,
{
    assert(is_alphanumeric(ext[0]));
    assert(is_alphanumeric(ext[ext.len() - 1]));
    lemma_last_index(ext, '.', ext.len() as int);
    let d = last_index(ext, '.', ext.len() as int);
    if d >= 0 {
        assert(is_alphanumeric(ext[d]));
    }
    if ext.contains('/') {
        let w = choose|w: int| 0 <= w < ext.len() && ext[w] == '/';
        assert(is_alphanumeric(ext[w]));
    }
}

/// A name with an ending that is no dot is no directory of its own.
proof fn lemma_file_name(pieces: Seq<Seq<char>>, name: Seq<char>)
    requires
        pieces.len() > 0,
        pieces.last() == name,
        name.len() > 0,
        name.last() != '.',
    ensures
        file_name(pieces, pieces.len() as int) == Some(name),
{
    reveal_strlit(".");
    reveal_strlit("..");
    assert("."@.last() == '.');
    assert(".."@.last() == '.');
}

/// A path with a dot and an extension at its end has that extension.
proof fn lemma_path_extension(front: Seq<char>, ext: Seq<char>)
    requires
        is_extension(ext),
        front.len() > 0,
        front.last() != '/',
    ensures
        path_extension(front + seq!['.'] + ext) == Some(ext),
{
    lemma_extension(ext);
    lemma_last_index(front, '/', front.len() as int);
    let l = last_index(front, '/', front.len() as int);
    let head = front.take(l + 1);
    let stem = front.skip(l + 1);
    let name = stem + seq!['.'] + ext;
    let path = front + seq!['.'] + ext;
    assert(l != front.len() - 1);
    assert(path =~= head + name);
    assert(!name.contains('/')) by {
        if name.contains('/') {
            let w = choose|w: int| 0 <= w < name.len() && name[w] == '/';
            if w < stem.len() {
                assert(front[l + 1 + w] == '/');
            } else if w > stem.len() {
                assert(ext[w - stem.len() - 1] == '/');
                assert(ext.contains('/'));
            }
        }
    }
    lemma_split_last(head, name, '/');
    assert(name.last() == ext.last());
    lemma_file_name(split(path, '/'), name);
    lemma_last_index(name, '.', name.len() as int);
    lemma_last_index(ext, '.', ext.len() as int);
    let d = last_index(name, '.', name.len() as int);
    assert(name[stem.len() as int] == '.');
    if d > stem.len() {
        assert(ext[d - stem.len() - 1] == '.');
    }
    assert(name.subrange(d + 1, name.len() as int) =~= ext);
}

/// The content types of the usual extensions. Those of text name their encoding.
#[verifier::rlimit(60)]
pub proof fn law_types_of_extensions(ext: Seq<char>)
    ensures
        ext == "html"@ || ext == "htm"@ ==> content_type(ext) == "text/html; charset=utf-8"@,
        ext == "css"@ ==> content_type(ext) == "text/css; charset=utf-8"@,
        ext == "js"@ || ext == "mjs"@ || ext == "cjs"@ ==> content_type(ext)
            == "text/javascript; charset=utf-8"@,
        ext == "json"@ || ext == "map"@ || ext == "jsonld"@ ==> content_type(ext)
            == "application/json; charset=utf-8"@,
        ext == "xml"@ ==> content_type(ext) == "application/xml; charset=utf-8"@,
        ext == "yaml"@ || ext == "yml"@ ==> content_type(ext) == "application/yaml; charset=utf-8"@,
        ext == "pdf"@ ==> content_type(ext) == "application/pdf"@,
        ext == "wasm"@ ==> content_type(ext) == "application/wasm"@,
        ext == "zip"@ ==> content_type(ext) == "application/zip"@,
        ext == "gz"@ ==> content_type(ext) == "application/gzip"@,
        ext == "tar"@ ==> content_type(ext) == "application/x-tar"@,
        ext == "7z"@ ==> content_type(ext) == "application/x-7z-compressed"@,
        ext == "rar"@ ==> content_type(ext) == "application/vnd.rar"@,
        ext == "svg"@ ==> content_type(ext) == "image/svg+xml"@,
        ext == "ico"@ ==> content_type(ext) == "image/x-icon"@,
        ext == "png"@ ==> content_type(ext) == "image/png"@,
        ext == "apng"@ ==> content_type(ext) == "image/apng"@,
        ext == "jpg"@ || ext == "jpeg"@ ==> content_type(ext) == "image/jpeg"@,
        ext == "gif"@ ==> content_type(ext) == "image/gif"@,
        ext == "webp"@ ==> content_type(ext) == "image/webp"@,
        ext == "avif"@ ==> content_type(ext) == "image/avif"@,
        ext == "bmp"@ ==> content_type(ext) == "image/bmp"@,
        ext == "tif"@ || ext == "tiff"@ ==> content_type(ext) == "image/tiff"@,
        ext == "woff"@ ==> content_type(ext) == "font/woff"@,
        ext == "woff2"@ ==> content_type(ext) == "font/woff2"@,
        ext == "ttf"@ ==> content_type(ext) == "font/ttf"@,
        ext == "otf"@ ==> content_type(ext) == "font/otf"@,
        ext == "eot"@ ==> content_type(ext) == "application/vnd.ms-fontobject"@,
        ext == "txt"@ || ext == "text"@ ==> content_type(ext) == "text/plain; charset=utf-8"@,
        ext == "md"@ ==> content_type(ext) == "text/markdown; charset=utf-8"@,
        ext == "csv"@ ==> content_type(ext) == "text/csv; charset=utf-8"@,
        ext == "tsv"@ ==> content_type(ext) == "text/tab-separated-values; charset=utf-8"@,
        ext == "ics"@ ==> content_type(ext) == "text/calendar; charset=utf-8"@,
        ext == "mp3"@ ==> content_type(ext) == "audio/mpeg"@,
        ext == "wav"@ ==> content_type(ext) == "audio/wav"@,
        ext == "ogg"@ || ext == "oga"@ ==> content_type(ext) == "audio/ogg"@,
        ext == "m4a"@ ==> content_type(ext) == "audio/mp4"@,
        ext == "mp4"@ || ext == "m4v"@ ==> content_type(ext) == "video/mp4"@,
        ext == "webm"@ ==> content_type(ext) == "video/webm"@,
        ext == "mov"@ ==> content_type(ext) == "video/quicktime"@,
        ext == "avi"@ ==> content_type(ext) == "video/x-msvideo"@,
        ext == "mpeg"@ || ext == "mpg"@ ==> content_type(ext) == "video/mpeg"@,
        ext == "ogv"@ ==> content_type(ext) == "video/ogg"@,
{
    reveal_strlit("html");
    assert("html"@.len() == 4 && "html"@[0] == 'h' && "html"@[1] == 't' && "html"@[2] == 'm' && "html"@[3] == 'l');
    reveal_strlit("htm");
    assert("htm"@.len() == 3 && "htm"@[0] == 'h' && "htm"@[1] == 't' && "htm"@[2] == 'm');
    reveal_strlit("css");
    assert("css"@.len() == 3 && "css"@[0] == 'c' && "css"@[1] == 's' && "css"@[2] == 's');
    reveal_strlit("js");
    assert("js"@.len() == 2 && "js"@[0] == 'j' && "js"@[1] == 's');
    reveal_strlit("mjs");
    assert("mjs"@.len() == 3 && "mjs"@[0] == 'm' && "mjs"@[1] == 'j' && "mjs"@[2] == 's');
    reveal_strlit("cjs");
    assert("cjs"@.len() == 3 && "cjs"@[0] == 'c' && "cjs"@[1] == 'j' && "cjs"@[2] == 's');
    reveal_strlit("json");
    assert("json"@.len() == 4 && "json"@[0] == 'j' && "json"@[1] == 's' && "json"@[2] == 'o' && "json"@[3] == 'n');
    reveal_strlit("map");
    assert("map"@.len() == 3 && "map"@[0] == 'm' && "map"@[1] == 'a' && "map"@[2] == 'p');
    reveal_strlit("jsonld");
    assert("jsonld"@.len() == 6 && "jsonld"@[0] == 'j' && "jsonld"@[1] == 's' && "jsonld"@[2] == 'o' && "jsonld"@[3] == 'n' && "jsonld"@[4] == 'l' && "jsonld"@[5] == 'd');
    reveal_strlit("xml");
    assert("xml"@.len() == 3 && "xml"@[0] == 'x' && "xml"@[1] == 'm' && "xml"@[2] == 'l');
    reveal_strlit("yaml");
    assert("yaml"@.len() == 4 && "yaml"@[0] == 'y' && "yaml"@[1] == 'a' && "yaml"@[2] == 'm' && "yaml"@[3] == 'l');
    reveal_strlit("yml");
    assert("yml"@.len() == 3 && "yml"@[0] == 'y' && "yml"@[1] == 'm' && "yml"@[2] == 'l');
    reveal_strlit("pdf");
    assert("pdf"@.len() == 3 && "pdf"@[0] == 'p' && "pdf"@[1] == 'd' && "pdf"@[2] == 'f');
    reveal_strlit("wasm");
    assert("wasm"@.len() == 4 && "wasm"@[0] == 'w' && "wasm"@[1] == 'a' && "wasm"@[2] == 's' && "wasm"@[3] == 'm');
    reveal_strlit("zip");
    assert("zip"@.len() == 3 && "zip"@[0] == 'z' && "zip"@[1] == 'i' && "zip"@[2] == 'p');
    reveal_strlit("gz");
    assert("gz"@.len() == 2 && "gz"@[0] == 'g' && "gz"@[1] == 'z');
    reveal_strlit("tar");
    assert("tar"@.len() == 3 && "tar"@[0] == 't' && "tar"@[1] == 'a' && "tar"@[2] == 'r');
    reveal_strlit("7z");
    assert("7z"@.len() == 2 && "7z"@[0] == '7' && "7z"@[1] == 'z');
    reveal_strlit("rar");
    assert("rar"@.len() == 3 && "rar"@[0] == 'r' && "rar"@[1] == 'a' && "rar"@[2] == 'r');
    reveal_strlit("svg");
    assert("svg"@.len() == 3 && "svg"@[0] == 's' && "svg"@[1] == 'v' && "svg"@[2] == 'g');
    reveal_strlit("ico");
    assert("ico"@.len() == 3 && "ico"@[0] == 'i' && "ico"@[1] == 'c' && "ico"@[2] == 'o');
    reveal_strlit("png");
    assert("png"@.len() == 3 && "png"@[0] == 'p' && "png"@[1] == 'n' && "png"@[2] == 'g');
    reveal_strlit("apng");
    assert("apng"@.len() == 4 && "apng"@[0] == 'a' && "apng"@[1] == 'p' && "apng"@[2] == 'n' && "apng"@[3] == 'g');
    reveal_strlit("jpg");
    assert("jpg"@.len() == 3 && "jpg"@[0] == 'j' && "jpg"@[1] == 'p' && "jpg"@[2] == 'g');
    reveal_strlit("jpeg");
    assert("jpeg"@.len() == 4 && "jpeg"@[0] == 'j' && "jpeg"@[1] == 'p' && "jpeg"@[2] == 'e' && "jpeg"@[3] == 'g');
    reveal_strlit("gif");
    assert("gif"@.len() == 3 && "gif"@[0] == 'g' && "gif"@[1] == 'i' && "gif"@[2] == 'f');
    reveal_strlit("webp");
    assert("webp"@.len() == 4 && "webp"@[0] == 'w' && "webp"@[1] == 'e' && "webp"@[2] == 'b' && "webp"@[3] == 'p');
    reveal_strlit("avif");
    assert("avif"@.len() == 4 && "avif"@[0] == 'a' && "avif"@[1] == 'v' && "avif"@[2] == 'i' && "avif"@[3] == 'f');
    reveal_strlit("bmp");
    assert("bmp"@.len() == 3 && "bmp"@[0] == 'b' && "bmp"@[1] == 'm' && "bmp"@[2] == 'p');
    reveal_strlit("tif");
    assert("tif"@.len() == 3 && "tif"@[0] == 't' && "tif"@[1] == 'i' && "tif"@[2] == 'f');
    reveal_strlit("tiff");
    assert("tiff"@.len() == 4 && "tiff"@[0] == 't' && "tiff"@[1] == 'i' && "tiff"@[2] == 'f' && "tiff"@[3] == 'f');
    reveal_strlit("woff");
    assert("woff"@.len() == 4 && "woff"@[0] == 'w' && "woff"@[1] == 'o' && "woff"@[2] == 'f' && "woff"@[3] == 'f');
    reveal_strlit("woff2");
    assert("woff2"@.len() == 5 && "woff2"@[0] == 'w' && "woff2"@[1] == 'o' && "woff2"@[2] == 'f' && "woff2"@[3] == 'f' && "woff2"@[4] == '2');
    reveal_strlit("ttf");
    assert("ttf"@.len() == 3 && "ttf"@[0] == 't' && "ttf"@[1] == 't' && "ttf"@[2] == 'f');
    reveal_strlit("otf");
    assert("otf"@.len() == 3 && "otf"@[0] == 'o' && "otf"@[1] == 't' && "otf"@[2] == 'f');
    reveal_strlit("eot");
    assert("eot"@.len() == 3 && "eot"@[0] == 'e' && "eot"@[1] == 'o' && "eot"@[2] == 't');
    reveal_strlit("txt");
    assert("txt"@.len() == 3 && "txt"@[0] == 't' && "txt"@[1] == 'x' && "txt"@[2] == 't');
    reveal_strlit("text");
    assert("text"@.len() == 4 && "text"@[0] == 't' && "text"@[1] == 'e' && "text"@[2] == 'x' && "text"@[3] == 't');
    reveal_strlit("md");
    assert("md"@.len() == 2 && "md"@[0] == 'm' && "md"@[1] == 'd');
    reveal_strlit("csv");
    assert("csv"@.len() == 3 && "csv"@[0] == 'c' && "csv"@[1] == 's' && "csv"@[2] == 'v');
    reveal_strlit("tsv");
    assert("tsv"@.len() == 3 && "tsv"@[0] == 't' && "tsv"@[1] == 's' && "tsv"@[2] == 'v');
    reveal_strlit("ics");
    assert("ics"@.len() == 3 && "ics"@[0] == 'i' && "ics"@[1] == 'c' && "ics"@[2] == 's');
    reveal_strlit("mp3");
    assert("mp3"@.len() == 3 && "mp3"@[0] == 'm' && "mp3"@[1] == 'p' && "mp3"@[2] == '3');
    reveal_strlit("wav");
    assert("wav"@.len() == 3 && "wav"@[0] == 'w' && "wav"@[1] == 'a' && "wav"@[2] == 'v');
    reveal_strlit("ogg");
    assert("ogg"@.len() == 3 && "ogg"@[0] == 'o' && "ogg"@[1] == 'g' && "ogg"@[2] == 'g');
    reveal_strlit("oga");
    assert("oga"@.len() == 3 && "oga"@[0] == 'o' && "oga"@[1] == 'g' && "oga"@[2] == 'a');
    reveal_strlit("m4a");
    assert("m4a"@.len() == 3 && "m4a"@[0] == 'm' && "m4a"@[1] == '4' && "m4a"@[2] == 'a');
    reveal_strlit("mp4");
    assert("mp4"@.len() == 3 && "mp4"@[0] == 'm' && "mp4"@[1] == 'p' && "mp4"@[2] == '4');
    reveal_strlit("m4v");
    assert("m4v"@.len() == 3 && "m4v"@[0] == 'm' && "m4v"@[1] == '4' && "m4v"@[2] == 'v');
    reveal_strlit("webm");
    assert("webm"@.len() == 4 && "webm"@[0] == 'w' && "webm"@[1] == 'e' && "webm"@[2] == 'b' && "webm"@[3] == 'm');
    reveal_strlit("mov");
    assert("mov"@.len() == 3 && "mov"@[0] == 'm' && "mov"@[1] == 'o' && "mov"@[2] == 'v');
    reveal_strlit("avi");
    assert("avi"@.len() == 3 && "avi"@[0] == 'a' && "avi"@[1] == 'v' && "avi"@[2] == 'i');
    reveal_strlit("mpeg");
    assert("mpeg"@.len() == 4 && "mpeg"@[0] == 'm' && "mpeg"@[1] == 'p' && "mpeg"@[2] == 'e' && "mpeg"@[3] == 'g');
    reveal_strlit("mpg");
    assert("mpg"@.len() == 3 && "mpg"@[0] == 'm' && "mpg"@[1] == 'p' && "mpg"@[2] == 'g');
    reveal_strlit("ogv");
    assert("ogv"@.len() == 3 && "ogv"@[0] == 'o' && "ogv"@[1] == 'g' && "ogv"@[2] == 'v');
}

/// Only the last extension counts, in whatever case: a bare extension, one behind a dot,
/// and one at the end of any file name or path are guessed alike, and one that is not
/// known is `application/octet-stream`. A dot right behind a slash begins a name without
/// an extension.
pub proof fn law_only_the_last_extension_counts(front: Seq<char>, ext: Seq<char>, other: Seq<char>)
    requires
        is_extension(ext),
        front.len() == 0 || front.last() != '/',
    ensures
        extension_of(ext) == lower_all(ext),
        extension_of(front + seq!['.'] + ext) == lower_all(ext),
        same_ignoring_case(ext, other) && is_extension(other) ==> extension_of(other)
            == extension_of(ext),
        is_extension(upper_all(ext)),
        extension_of(upper_all(ext)) == extension_of(ext),
        !is_known(lower_all(ext)) ==> content_type(extension_of(ext))
            == "application/octet-stream"@,
{
    lemma_bare_extension(ext);
    if is_extension(other) {
        lemma_bare_extension(other);
    }
    let big = upper_all(ext);
    assert forall|i: int| 0 <= i < big.len() implies is_alphanumeric(#[trigger] big[i]) && lower(
        big[i],
    ) == lower(ext[i]) by {
        assert(is_alphanumeric(ext[i]));
    }
    assert(lower_all(big) =~= lower_all(ext));
    lemma_bare_extension(big);
    lemma_extension(ext);
    let rest = seq!['.'] + ext;
    assert(front + seq!['.'] + ext =~= front + rest);
    lemma_trim_start(front, rest);
    let kept = trim_start(front);
    let input = kept + rest;
    assert(input.last() == ext.last());
    assert(trim(front + rest) == input);
    if kept.len() > 0 {
        assert(kept + seq!['.'] + ext =~= input);
        lemma_path_extension(kept, ext);
    } else {
        assert(input =~= rest);
        assert(!rest.contains('/')) by {
            if rest.contains('/') {
                let w = choose|w: int| 0 <= w < rest.len() && rest[w] == '/';
                assert(w > 0 && ext[w - 1] == '/');
                assert(ext.contains('/'));
            }
        }
        lemma_split_one(rest, '/');
        lemma_file_name(split(rest, '/'), rest);
        lemma_last_index(rest, '.', rest.len() as int);
        lemma_last_index(ext, '.', ext.len() as int);
        let d = last_index(rest, '.', rest.len() as int);
        assert(rest[0] == '.');
        if d > 0 {
            assert(ext[d - 1] == '.');
        }
        assert(rest.subrange(1, rest.len() as int) =~= ext);
    }
}

/// A name that begins with its only dot has no extension.
pub proof fn law_hidden_files_have_no_extension(front: Seq<char>, name: Seq<char>)
    requires
        is_extension(name),
    ensures
        path_extension(front + seq!['/'] + seq!['.'] + name) is None,
        path_extension(seq!['.'] + name) is None,
{
    lemma_extension(name);
    let rest = seq!['.'] + name;
    assert(!rest.contains('/')) by {
        if rest.contains('/') {
            let w = choose|w: int| 0 <= w < rest.len() && rest[w] == '/';
            assert(w > 0 && name[w - 1] == '/');
            assert(name.contains('/'));
        }
    }
    assert(rest.last() == name.last());
    lemma_last_index(rest, '.', rest.len() as int);
    lemma_last_index(name, '.', name.len() as int);
    let d = last_index(rest, '.', rest.len() as int);
    if d > 0 {
        assert(name[d - 1] == '.');
    }
    let head = front + seq!['/'];
    assert(front + seq!['/'] + seq!['.'] + name =~= head + rest);
    lemma_split_last(head, rest, '/');
    lemma_file_name(split(head + rest, '/'), rest);
    lemma_split_one(rest, '/');
    lemma_file_name(split(rest, '/'), rest);
}

proof fn lemma_bare_extension(ext: Seq<char>)
    requires
        is_extension(ext),
    ensures
        extension_of(ext) == lower_all(ext),
{
    lemma_extension(ext);
    lemma_split_one(ext, '/');
    lemma_file_name(split(ext, '/'), ext);
}

/// Whether a media type covers plain text.
pub open spec fn covers_text(media: Seq<char>) -> bool {
    let m = lower_all(media);
    m == "*/*"@ || m == "text/*"@ || m == "text/plain"@
}

/// Whether a media list covers plain text.
pub open spec fn list_covers_text(raw: Seq<char>) -> bool {
    exists|k: int|
        0 <= k < split(raw, ',').len() && covers_text(media_of(#[trigger] split(raw, ',')[k]))
}

/// Whether a client that sent these headers takes plain text. One that says nothing
/// does.
pub open spec fn accepts_text(headers: Seq<Header>) -> bool {
    ||| !has_header(headers, "accept"@)
    ||| exists|i: int|
        0 <= i < headers.len() && same_ignoring_case((#[trigger] headers[i]).name@, "accept"@)
            && headers[i].text
            is Some && list_covers_text(headers[i].text->0@)
}

fn any_covers_text(raw: &str) -> (res: bool)
    ensures
        res == list_covers_text(raw@),
{
    let all = chars_of(raw);
    let items = split_chars(all.as_slice(), ',');
    let ghost rows = split(raw@, ',');
    let mut k: usize = 0;
    while k < items.len()
        invariant
            k <= items@.len(),
            char_rows(items@) == rows,
            rows == split(raw@, ','),
            forall|j: int| 0 <= j < k ==> !covers_text(media_of(#[trigger] rows[j])),
        decreases items@.len() - k,
    {
        assert(char_rows(items@)[k as int] == items@[k as int]@);
        let parts = split_chars(items[k].as_slice(), ';');
        assert(char_rows(parts@)[0] == parts@[0]@);
        let media = string_of(lower_chars(trim_chars(parts[0].as_slice())).as_slice());
        if same(media.as_str(), "*/*") || same(media.as_str(), "text/*") || same(
            media.as_str(),
            "text/plain",
        ) {
            assert(covers_text(media_of(rows[k as int])));
            return true;
        }
        k += 1;
    }
    assert(rows.len() == items@.len());
    false
}

/// Decides whether a client that sent these headers takes plain text.
pub fn request_accepts_text(headers: &[Header]) -> (res: bool)
    ensures
        res == accepts_text(headers@),
{
    if header_position(headers, "accept") == headers.len() {
        return true;
    }
    let mut i: usize = 0;
    while i < headers.len()
        invariant
            i <= headers@.len(),
            forall|k: int|
                0 <= k < i ==> !(same_ignoring_case((#[trigger] headers@[k]).name@, "accept"@)
                    && headers@[k].text
                    is Some && list_covers_text(headers@[k].text->0@)),
        decreases headers@.len() - i,
    {
        if same_text_ignoring_case(headers[i].name.as_str(), "accept") {
            if let Some(text) = &headers[i].text {
                if any_covers_text(text.as_str()) {
                    return true;
                }
            }
        }
        i += 1;
    }
    false
}

/// Whether one of the names is `Content-Type`, up to case.
pub open spec fn names_content_type(headers: Pairs) -> bool {
    exists|i: int|
        0 <= i < headers.len() && same_ignoring_case(
            (#[trigger] headers[i]).0,
            "content-type"@,
        )
}

/// Whether one of the names is `Content-Type`, up to case.
pub fn has_content_type_header(headers: &Metadata) -> (res: bool)
    ensures
        res == names_content_type(headers@),
{
    let mut i: usize = 0;
    while i < headers.entries.len()
        invariant
            i <= headers.entries@.len(),
            forall|k: int|
                0 <= k < i ==> !same_ignoring_case(
                    (#[trigger] headers@[k]).0,
                    "content-type"@,
                ),
        decreases headers.entries@.len() - i,
    {
        assert(headers@[i as int].0 == headers.entries@[i as int].0@);
        if same_text_ignoring_case(headers.entries[i].0.as_str(), "content-type") {
            return true;
        }
        i += 1;
    }
    assert(headers@.len() == headers.entries@.len());
    false
}

/// An HTTP protocol version.
#[derive(Debug, Clone, Copy, PartialEq, Eq, Structural)]
pub enum HttpVersion {
    Http09,
    Http10,
    Http11,
    Http2,
    Http3,
    Unknown,
}

/// The text of a protocol version.
pub open spec fn version_text(version: HttpVersion) -> Seq<char> {
    match version {
        HttpVersion::Http09 => "HTTP/0.9"@,
        HttpVersion::Http10 => "HTTP/1.0"@,
        HttpVersion::Http11 => "HTTP/1.1"@,
        HttpVersion::Http2 => "HTTP/2.0"@,
        HttpVersion::Http3 => "HTTP/3.0"@,
        HttpVersion::Unknown => "HTTP/?"@,
    }
}

/// The text of a protocol version.
pub fn http_version_str(version: HttpVersion) -> (text: &'static str)
    ensures
        text@ == version_text(version),
{
    match version {
        HttpVersion::Http09 => "HTTP/0.9",
        HttpVersion::Http10 => "HTTP/1.0",
        HttpVersion::Http11 => "HTTP/1.1",
        HttpVersion::Http2 => "HTTP/2.0",
        HttpVersion::Http3 => "HTTP/3.0",
        HttpVersion::Unknown => "HTTP/?",
    }
}

} // verus!
