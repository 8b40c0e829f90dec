//! Compressed bodies: whether a client takes them, and the compression itself.

use vstd::prelude::*;
use vstd::slice::slice_subrange;

use crate::http::headers::Header;
use crate::text::{
    char_rows, chars_of, contains, contains_chars, lower_all, lower_chars, same, same_ignoring_case,
    same_text_ignoring_case, split, split_chars, stands_at, starts_with, string_of, text_of_option,
    texts, trim, trim_chars,
};

verus! {

/// The weights in the parameters of a coding from position `i` on: what follows
/// `q=`.
pub open spec fn weights(parts: Seq<Seq<char>>, i: int) -> Seq<Seq<char>>
    decreases parts.len() - i,
{
    if i >= parts.len() {
        seq![]
    } else if starts_with(trim(parts[i]), "q="@) {
        seq![trim(parts[i]).skip(2)] + weights(parts, i + 1)
    } else {
        weights(parts, i + 1)
    }
}

/// The coding that an item of a coding list names.
pub open spec fn coding_of(item: Seq<char>) -> Seq<char> {
    lower_all(trim(split(item, ';')[0]))
}

/// Whether an item of a coding list covers gzip: it names gzip or every coding.
pub open spec fn covers_gzip(item: Seq<char>) -> bool {
    coding_of(item) == "gzip"@ || coding_of(item) == "*"@
}

/// The items from position `i` on that cover gzip: whether each does so by its name,
/// and its weights.
pub open spec fn item_offers(items: Seq<Seq<char>>, i: int) -> Seq<(bool, Seq<Seq<char>>)>
    decreases items.len() - i,
{
    if i >= items.len() {
        seq![]
    } else if covers_gzip(items[i]) {
        seq![(coding_of(items[i]) == "gzip"@, weights(split(items[i], ';'), 1))] + item_offers(
            items,
            i + 1,
        )
    } else {
        item_offers(items, i + 1)
    }
}

/// The offers of gzip in the `Accept-Encoding` fields from position `i` on.
pub open spec fn header_offers(headers: Seq<Header>, i: int) -> Seq<(bool, Seq<Seq<char>>)>
    decreases headers.len() - i,
{
    if i >= headers.len() {
        seq![]
    } else if same_ignoring_case(headers[i].name@, "accept-encoding"@) && headers[i].text is Some {
        item_offers(split(headers[i].text->0@, ','), 0) + header_offers(headers, i + 1)
    } else {
        header_offers(headers, i + 1)
    }
}

/// Offers over character sequences.
pub open spec fn offer_views(offers: Seq<(bool, Vec<String>)>) -> Seq<(bool, Seq<Seq<char>>)> {
    offers.map_values(|o: (bool, Vec<String>)| (o.0, texts(o.1@)))
}

fn weights_of(parts: &Vec<Vec<char>>) -> (out: Vec<String>)
    ensures
        texts(out@) == weights(char_rows(parts@), 1),
{
    let ghost rows = char_rows(parts@);
    let prefix = chars_of("q=");
    proof {
        reveal_strlit("q=");
    }
    let mut out: Vec<String> = Vec::new();
    let mut i: usize = 1;
    assert(texts(out@) + weights(rows, 1) =~= weights(rows, 1));
    while i < parts.len()
        invariant
            1 <= i,
            parts@.len() >= 1 ==> i <= parts@.len(),
            rows == char_rows(parts@),
            prefix@ == "q="@,
            prefix@.len() == 2,
            texts(out@) + weights(rows, i as int) == weights(rows, 1),
        decreases parts@.len() - i,
    {
        assert(rows[i as int] == parts@[i as int]@);
        let part = trim_chars(parts[i].as_slice());
        assert(part@.skip(0) =~= part@);
        let ghost before = texts(out@);
        if stands_at(part, 0, prefix.as_slice()) {
            let weight = string_of(slice_subrange(part, 2, part.len()));
            assert(weight@ =~= part@.skip(2));
            out.push(weight);
            assert(texts(out@) =~= before.push(weight@));
            assert(before.push(weight@) + weights(rows, i + 1) =~= before + (seq![weight@]
                + weights(rows, i + 1)));
        }
        i += 1;
    }
    assert(texts(out@) + weights(rows, i as int) =~= texts(out@));
    out
}

fn offers_in(raw: &str, offers: &mut Vec<(bool, Vec<String>)>)
    ensures
        offer_views(final(offers)@) == offer_views(old(offers)@) + item_offers(split(raw@, ','), 0),
{
    let all = chars_of(raw);
    let items = split_chars(all.as_slice(), ',');
    let ghost rows = split(raw@, ',');
    let ghost start = offer_views(offers@);
    let mut i: usize = 0;
    while i < items.len()
        invariant
            i <= items@.len(),
            char_rows(items@) == rows,
            offer_views(offers@) + item_offers(rows, i as int) == start + item_offers(rows, 0),
        decreases items@.len() - i,
    {
        assert(char_rows(items@)[i as int] == items@[i as int]@);
        let parts = split_chars(items[i].as_slice(), ';');
        assert(char_rows(parts@)[0] == parts@[0]@);
        let coding = string_of(lower_chars(trim_chars(parts[0].as_slice())).as_slice());
        let ghost before = offer_views(offers@);
        let named = same(coding.as_str(), "gzip");
        if named || same(coding.as_str(), "*") {
            let found = weights_of(&parts);
            offers.push((named, found));
            let ghost added = (named, texts(found@));
            assert(offer_views(offers@) =~= before.push(added));
            assert(before.push(added) + item_offers(rows, i + 1) =~= before + (seq![added]
                + item_offers(rows, i + 1)));
        }
        i += 1;
    }
    assert(offer_views(offers@) + item_offers(rows, rows.len() as int) =~= offer_views(offers@));
}

/// The offers of gzip in the `Accept-Encoding` fields: whether each names gzip, and its
/// weights. Without such a field there is no offer.
pub fn gzip_offers(headers: &[Header]) -> (offers: Vec<(bool, Vec<String>)>)
    ensures
        offer_views(offers@) == header_offers(headers@, 0),
{
    let mut offers: Vec<(bool, Vec<String>)> = Vec::new();
    let mut i: usize = 0;
    assert(offer_views(offers@) + header_offers(headers@, 0) =~= header_offers(headers@, 0));
    while i < headers.len()
        invariant
            i <= headers@.len(),
            offer_views(offers@) + header_offers(headers@, i as int) == header_offers(headers@, 0),
        decreases headers@.len() - i,
    {
        if same_text_ignoring_case(headers[i].name.as_str(), "accept-encoding") {
            if let Some(text) = &headers[i].text {
                let ghost before = offer_views(offers@);
                let ghost added = item_offers(split(text@, ','), 0);
                offers_in(text.as_str(), &mut offers);
                assert(before + added + header_offers(headers@, i + 1) =~= before + (added
                    + header_offers(headers@, i + 1)));
            }
        }
        i += 1;
    }
    assert(offer_views(offers@) + header_offers(headers@, i as int) =~= offer_views(offers@));
    offers
}

fn has_true(row: &Vec<bool>) -> (res: bool)
    ensures
        res == row@.contains(true),
{
    let mut j: usize = 0;
    while j < row.len()
        invariant
            j <= row@.len(),
            forall|k: int| 0 <= k < j ==> !#[trigger] row@[k],
        decreases row@.len() - j,
    {
        if row[j] {
            return true;
        }
        j += 1;
    }
    false
}

/// Whether an offer names gzip.
pub open spec fn is_named(offer: (bool, Vec<bool>)) -> bool {
    offer.0
}

/// Whether an offer excludes its coding: one of its weights is zero.
pub open spec fn excludes(offer: (bool, Vec<bool>)) -> bool {
    offer.1@.contains(true)
}

/// Whether a client takes gzip. Where offers name gzip, they decide; otherwise those for
/// every coding do. There has to be one, and none may exclude the coding.
pub open spec fn takes_gzip(offers: Seq<(bool, Vec<bool>)>) -> bool {
    if exists|i: int| 0 <= i < offers.len() && is_named(#[trigger] offers[i]) {
        forall|i: int|
            0 <= i < offers.len() && is_named(#[trigger] offers[i]) ==> !excludes(offers[i])
    } else {
        offers.len() > 0 && forall|i: int|
            0 <= i < offers.len() ==> !excludes(#[trigger] offers[i])
    }
}

/// Decides whether a client takes gzip. Each offer says whether it names gzip, and of
/// each weight whether it is the number zero.
pub fn accepts_gzip_offers(offers: &Vec<(bool, Vec<bool>)>) -> (res: bool)
    ensures
        res == takes_gzip(offers@),
{
    let mut named: bool = false;
    let mut named_out: bool = false;
    let mut any_out: bool = false;
    let mut i: usize = 0;
    while i < offers.len()
        invariant
            i <= offers@.len(),
            named == exists|k: int| 0 <= k < i && is_named(#[trigger] offers@[k]),
            named_out == exists|k: int|
                0 <= k < i && is_named(#[trigger] offers@[k]) && excludes(offers@[k]),
            any_out == exists|k: int| 0 <= k < i && excludes(#[trigger] offers@[k]),
        decreases offers@.len() - i,
    {
        let out = has_true(&offers[i].1);
        assert(is_named(offers@[i as int]) == offers@[i as int].0);
        assert(excludes(offers@[i as int]) == out);
        if out {
            any_out = true;
        }
        if offers[i].0 {
            named = true;
            if out {
                named_out = true;
            }
        }
        i += 1;
    }
    if named {
        !named_out
    } else {
        offers.len() > 0 && !any_out
    }
}

/// An explicit weight of zero for gzip means that the client does not take it, whatever
/// else it offers. So does one for every coding where gzip is not named.
pub proof fn law_explicit_zero_disables_gzip(offers: Seq<(bool, Vec<bool>)>, i: int)
    requires
        0 <= i < offers.len(),
        excludes(offers[i]),
    ensures
        is_named(offers[i]) ==> !takes_gzip(offers),
        (forall|k: int| 0 <= k < offers.len() ==> !is_named(#[trigger] offers[k])) ==> !takes_gzip(
            offers,
        ),
{
}

/// The gzip stream that `flate2` writes for these bytes at its fast level, or why it
/// writes none.
pub uninterp spec fn gzip_of(data: Seq<u8>) -> Result<Seq<u8>, Seq<char>>;

/// What `flate2` reads from these bytes, or why they are no gzip stream.
pub uninterp spec fn gunzip_of(data: Seq<u8>) -> Result<Seq<u8>, Seq<char>>;

/// Bytes or a text that says why there are none, over mathematical values.
pub open spec fn bytes_or_text(r: Result<Vec<u8>, String>) -> Result<Seq<u8>, Seq<char>> {
    match r {
        Ok(bytes) => Ok(bytes@),
        Err(e) => Err(e@),
    }
}

/// `flate2::write::GzEncoder` at `Compression::fast` compresses bytes into a gzip
/// stream, with no time or name in its header. `flate2::read::GzDecoder` reads such a
/// stream back to the bytes it was made of.
#[verifier::external_body]
pub(crate) fn gzip(data: &[u8]) -> (out: Result<Vec<u8>, String>)
    ensures
        match out {
            Ok(o) => gzip_of(data@) == Ok::<Seq<u8>, Seq<char>>(o@) && gunzip_of(o@) == Ok::<
                Seq<u8>,
                Seq<char>,
            >(data@),
            Err(e) => gzip_of(data@) == Err::<Seq<u8>, Seq<char>>(e@),
        },
{
    let mut encoder = flate2::write::GzEncoder::new(Vec::new(), flate2::Compression::fast());
    match std::io::Write::write_all(&mut encoder, data) {
        Ok(()) => encoder.finish().map_err(|error| error.to_string()),
        Err(error) => Err(error.to_string()),
    }
}

/// `flate2::read::GzDecoder` decompresses the gzip stream at the beginning of the
/// bytes. It fails on what is no gzip stream, and the text says why.
#[verifier::external_body]
pub(crate) fn gunzip(data: &[u8]) -> (out: Result<Vec<u8>, String>)
    ensures
        bytes_or_text(out) == gunzip_of(data@),
{
    let mut decoder = flate2::read::GzDecoder::new(data);
    let mut out = Vec::new();
    match std::io::Read::read_to_end(&mut decoder, &mut out) {
        Ok(_) => Ok(out),
        Err(error) => Err(error.to_string()),
    }
}

/// Whether a body is worth compressing: it is longer than the threshold.
pub open spec fn worth_compressing(len: nat, enabled: bool, threshold: usize) -> bool {
    enabled && len > threshold
}

/// The body that is sent, and whether it is compressed: the compressed form only if
/// it is shorter.
pub open spec fn shorter_body(data: Seq<u8>, compressed: Seq<u8>) -> (Seq<u8>, bool) {
    if compressed.len() < data.len() {
        (compressed, true)
    } else {
        (data, false)
    }
}

/// The body that is sent for a payload, and whether it is compressed, or why it could
/// not be compressed.
pub open spec fn sent_body(payload: Seq<u8>, enabled: bool, threshold: usize) -> Result<
    (Seq<u8>, bool),
    Seq<char>,
> {
    if worth_compressing(payload.len(), enabled, threshold) {
        match gzip_of(payload) {
            Ok(compressed) => Ok(shorter_body(payload, compressed)),
            Err(e) => Err(e),
        }
    } else {
        Ok((payload, false))
    }
}

/// Picks the body that is sent.
pub fn choose_body(data: Vec<u8>, compressed: Vec<u8>) -> (body: (Vec<u8>, bool))
    ensures
        (body.0@, body.1) == shorter_body(data@, compressed@),
{
    if compressed.len() < data.len() {
        (compressed, true)
    } else {
        (data, false)
    }
}

/// Compresses a body that is worth it. An error means that it could not be
/// compressed.
pub fn compress_if_needed(
    data: Vec<u8>,
    compression_enabled: bool,
    threshold: usize,
) -> (res: Result<(Vec<u8>, bool), String>)
    ensures
        match res {
            Ok(body) => {
                &&& sent_body(data@, compression_enabled, threshold) == Ok::<
                    (Seq<u8>, bool),
                    Seq<char>,
                >((body.0@, body.1))
                &&& body.1 ==> gunzip_of(body.0@) == Ok::<Seq<u8>, Seq<char>>(data@)
            },
            Err(e) => sent_body(data@, compression_enabled, threshold) == Err::<
                (Seq<u8>, bool),
                Seq<char>,
            >(e@),
        },
{
    if !compression_enabled || data.len() <= threshold {
        return Ok((data, false));
    }
    match gzip(data.as_slice()) {
        Ok(compressed) => Ok(choose_body(data, compressed)),
        Err(e) => Err(e),
    }
}

/// Whether a content encoding is gzip.
pub open spec fn is_gzip_encoding(encoding: Option<Seq<char>>) -> bool {
    encoding is Some && contains(lower_all(encoding->0), "gzip"@)
}

/// The payload of a body with this content encoding, or why it has none.
pub open spec fn plain_body(data: Seq<u8>, encoding: Option<Seq<char>>) -> Result<
    Seq<u8>,
    Seq<char>,
> {
    if is_gzip_encoding(encoding) {
        gunzip_of(data)
    } else {
        Ok(data)
    }
}

/// Decompresses a body whose content encoding says that it is compressed.
pub fn decompress_if_needed(data: Vec<u8>, content_encoding: Option<&str>) -> (res: Result<
    Vec<u8>,
    String,
>)
    ensures
        bytes_or_text(res) == plain_body(data@, text_of_option(content_encoding)),
{
    if let Some(encoding) = content_encoding {
        let lowered = lower_chars(chars_of(encoding).as_slice());
        if contains_chars(lowered.as_slice(), chars_of("gzip").as_slice()) {
            return gunzip(data.as_slice());
        }
    }
    Ok(data)
}

/// A body that was compressed and is marked as gzip is decompressed to what it was,
/// and no body is longer than its payload.
pub proof fn law_decompressing_undoes_compressing(
    payload: Seq<u8>,
    enabled: bool,
    threshold: usize,
    body: Seq<u8>,
    compressed: bool,
)
    requires
        sent_body(payload, enabled, threshold) == Ok::<(Seq<u8>, bool), Seq<char>>(
            (body, compressed),
        ),
        compressed ==> gunzip_of(body) == Ok::<Seq<u8>, Seq<char>>(payload),
    ensures
        body.len() <= payload.len(),
        plain_body(
            body,
            if compressed {
                Some("gzip"@)
            } else {
                None
            },
        ) == Ok::<Seq<u8>, Seq<char>>(payload),
{
    let word = "gzip"@;
    reveal_strlit("gzip");
    assert(lower_all(word) =~= word);
    assert(word.skip(0) =~= word);
    assert(word.take(4) =~= word);
    assert(starts_with(lower_all(word).skip(0), word));
}

} // verus!
