//! The metadata and credentials of calls that a descriptor drives.

use vstd::prelude::*;

use crate::http::headers::{is_field_text, is_header_name};
use crate::message::{copy_bytes, Pairs};
use crate::models::GrpcConfig;
use crate::text::{join2, join3, join5, opt, same_ignoring_case};

verus! {

/// Whether a name ends in `-bin`, in any case.
pub open spec fn is_marked_binary(name: Seq<char>) -> bool {
    name.len() >= 4 && same_ignoring_case(name.skip(name.len() - 4), "-bin"@)
}

/// Whether a name can be that of a metadata entry that holds text.
pub open spec fn is_text_key(name: Seq<char>) -> bool {
    is_header_name(name) && !is_marked_binary(name)
}

/// Whether a name can be that of a metadata entry that holds bytes.
pub open spec fn is_binary_key(name: Seq<char>) -> bool {
    is_header_name(name) && is_marked_binary(name)
}

/// `tonic::metadata::MetadataKey::<Ascii>::from_bytes` takes header names that do not
/// end in `-bin`, in any case.
#[verifier::external_body]
pub(crate) fn check_text_key(name: &str) -> (valid: bool)
    ensures
        valid == is_text_key(name@),
{
    tonic::metadata::MetadataKey::<tonic::metadata::Ascii>::from_bytes(name.as_bytes()).is_ok()
}

/// `tonic::metadata::MetadataKey::<Binary>::from_bytes` takes header names that end
/// in `-bin`, in any case.
#[verifier::external_body]
pub(crate) fn check_binary_key(name: &str) -> (valid: bool)
    ensures
        valid == is_binary_key(name@),
{
    tonic::metadata::MetadataKey::<tonic::metadata::Binary>::from_bytes(name.as_bytes()).is_ok()
}

/// `tonic::metadata::MetadataValue::<Ascii>` is made from any text whose bytes are
/// tabs, or neither control characters nor the delete character.
#[verifier::external_body]
pub(crate) fn check_metadata_text(text: &str) -> (valid: bool)
    ensures
        valid == is_field_text(text@),
{
    tonic::metadata::MetadataValue::<tonic::metadata::Ascii>::try_from(text).is_ok()
}

/// The settings that calls carry, over mathematical values.
pub struct CallSettings {
    pub metadata: Pairs,
    pub binary: Seq<(Seq<char>, Seq<u8>)>,
    pub token: Option<Seq<char>>,
    pub api_key: Option<Seq<char>>,
    pub api_key_name: Option<Seq<char>>,
}

/// The settings that calls carry.
pub open spec fn call_settings(config: GrpcConfig) -> CallSettings {
    CallSettings {
        metadata: config.metadata@.map_values(|p: (String, String)| (p.0@, p.1@)),
        binary: config.binary_metadata@.map_values(|p: (String, Vec<u8>)| (p.0@, p.1@)),
        token: opt(config.bearer_token),
        api_key: opt(config.api_key),
        api_key_name: opt(config.api_key_name),
    }
}

/// The value of a metadata entry.
#[derive(Debug)]
pub enum EntryValue {
    Text(String),
    Binary(Vec<u8>),
}

/// A metadata entry that a call carries.
#[derive(Debug)]
pub struct CallEntry {
    pub name: String,
    pub value: EntryValue,
}

/// The value of a metadata entry over mathematical values.
pub enum EntryValueView {
    Text(Seq<char>),
    Binary(Seq<u8>),
}

/// A metadata entry over mathematical values.
pub struct EntryView {
    pub name: Seq<char>,
    pub value: EntryValueView,
}

impl View for CallEntry {
    type V = EntryView;

    open spec fn view(&self) -> EntryView {
        EntryView {
            name: self.name@,
            value: match self.value {
                EntryValue::Text(t) => EntryValueView::Text(t@),
                EntryValue::Binary(b) => EntryValueView::Binary(b@),
            },
        }
    }
}

/// Metadata entries over mathematical values.
pub open spec fn entry_views(entries: Seq<CallEntry>) -> Seq<EntryView> {
    entries.map_values(|e: CallEntry| e@)
}

/// A text entry.
pub open spec fn text_entry(name: Seq<char>, value: Seq<char>) -> EntryView {
    EntryView { name, value: EntryValueView::Text(value) }
}

/// The name under which an API key goes.
pub open spec fn key_name(s: CallSettings) -> Seq<char> {
    match s.api_key_name {
        Some(n) => n,
        None => "x-api-key"@,
    }
}

/// The configured text entries.
pub open spec fn text_entries(pairs: Pairs) -> Seq<EntryView> {
    pairs.map_values(|p: (Seq<char>, Seq<char>)| text_entry(p.0, p.1))
}

/// The configured binary entries.
pub open spec fn binary_entries(pairs: Seq<(Seq<char>, Seq<u8>)>) -> Seq<EntryView> {
    pairs.map_values(
        |p: (Seq<char>, Seq<u8>)| EntryView { name: p.0, value: EntryValueView::Binary(p.1) },
    )
}

/// The entries that a call carries, each replacing an earlier one of its name:
/// configured texts, configured bytes, the bearer token, the API key.
pub open spec fn call_entries(s: CallSettings) -> Seq<EntryView> {
    text_entries(s.metadata) + binary_entries(s.binary) + (match s.token {
        Some(t) => seq![text_entry("authorization"@, "Bearer "@ + t)],
        None => seq![],
    }) + (match s.api_key {
        Some(k) => seq![text_entry(key_name(s), k)],
        None => seq![],
    })
}

/// Why the configured texts cannot be sent, looking from `i` on.
pub open spec fn text_refusal(pairs: Pairs, i: int) -> Option<Seq<char>>
    decreases pairs.len() - i,
{
    if i >= pairs.len() {
        None
    } else if !is_text_key(pairs[i].0) {
        Some(
            "invalid gRPC metadata key '"@ + pairs[i].0 + "': invalid gRPC metadata key name"@,
        )
    } else if !is_field_text(pairs[i].1) {
        Some(
            "invalid gRPC metadata value for '"@ + pairs[i].0
                + "': failed to parse metadata value"@,
        )
    } else {
        text_refusal(pairs, i + 1)
    }
}

/// Why the configured bytes cannot be sent, looking from `i` on.
pub open spec fn binary_refusal(pairs: Seq<(Seq<char>, Seq<u8>)>, i: int) -> Option<Seq<char>>
    decreases pairs.len() - i,
{
    if i >= pairs.len() {
        None
    } else if !is_binary_key(pairs[i].0) {
        Some(
            "invalid binary gRPC metadata key '"@ + pairs[i].0
                + "': invalid gRPC metadata key name"@,
        )
    } else {
        binary_refusal(pairs, i + 1)
    }
}

/// Why the credentials cannot be sent.
pub open spec fn credential_refusal(s: CallSettings) -> Option<Seq<char>> {
    if s.token is Some && !is_field_text("Bearer "@ + s.token->0) {
        Some("bearer_token is not a valid gRPC metadata value"@)
    } else if s.api_key is Some && !is_text_key(key_name(s)) {
        Some("invalid api_key_name '"@ + key_name(s) + "': invalid gRPC metadata key name"@)
    } else if s.api_key is Some && !is_field_text(s.api_key->0) {
        Some("api_key is not a valid gRPC metadata value"@)
    } else {
        None
    }
}

/// Why calls cannot be made with these settings.
pub open spec fn call_refusal(s: CallSettings) -> Option<Seq<char>> {
    match text_refusal(s.metadata, 0) {
        Some(t) => Some(t),
        None => match binary_refusal(s.binary, 0) {
            Some(t) => Some(t),
            None => credential_refusal(s),
        },
    }
}

/// Whether a value can be sent in one setting exactly if it can in the other.
pub open spec fn alike(a: Seq<char>, b: Seq<char>) -> bool {
    is_field_text(a) == is_field_text(b)
}

/// A refusal never depends on what a configured value holds, only on whether it can
/// be sent: a credential that cannot be used does not show in it.
pub proof fn law_refusal_hides_values(a: CallSettings, b: CallSettings)
    requires
        a.metadata.len() == b.metadata.len(),
        forall|i: int|
            0 <= i < a.metadata.len() ==> (#[trigger] a.metadata[i]).0 == b.metadata[i].0 && alike(
                a.metadata[i].1,
                b.metadata[i].1,
            ),
        a.binary.len() == b.binary.len(),
        forall|i: int| 0 <= i < a.binary.len() ==> (#[trigger] a.binary[i]).0 == b.binary[i].0,
        a.token is Some == b.token is Some,
        a.token is Some ==> alike("Bearer "@ + a.token->0, "Bearer "@ + b.token->0),
        a.api_key is Some == b.api_key is Some,
        a.api_key is Some ==> alike(a.api_key->0, b.api_key->0),
        a.api_key_name == b.api_key_name,
    ensures
        call_refusal(a) == call_refusal(b),
{
    lemma_text_refusal(a.metadata, b.metadata, 0);
    lemma_binary_refusal(a.binary, b.binary, 0);
}

proof fn lemma_text_refusal(a: Pairs, b: Pairs, i: int)
    requires
        0 <= i,
        a.len() == b.len(),
        forall|i: int|
            0 <= i < a.len() ==> (#[trigger] a[i]).0 == b[i].0 && alike(a[i].1, b[i].1),
    ensures
        text_refusal(a, i) == text_refusal(b, i),
    decreases a.len() - i,
{
    if i < a.len() {
        lemma_text_refusal(a, b, i + 1);
    }
}

proof fn lemma_binary_refusal(
    a: Seq<(Seq<char>, Seq<u8>)>,
    b: Seq<(Seq<char>, Seq<u8>)>,
    i: int,
)
    requires
        0 <= i,
        a.len() == b.len(),
        forall|i: int| 0 <= i < a.len() ==> (#[trigger] a[i]).0 == b[i].0,
    ensures
        binary_refusal(a, i) == binary_refusal(b, i),
    decreases a.len() - i,
{
    if i < a.len() {
        lemma_binary_refusal(a, b, i + 1);
    }
}

/// The metadata and credentials that every call carries.
pub fn apply_call_metadata(config: &GrpcConfig) -> (res: Result<Vec<CallEntry>, String>)
    ensures
        match res {
            Ok(entries) => {
                &&& call_refusal(call_settings(*config)) is None
                &&& entry_views(entries@) == call_entries(call_settings(*config))
            },
            Err(e) => call_refusal(call_settings(*config)) == Some(e@),
        },
{
    let ghost s = call_settings(*config);
    let mut entries: Vec<CallEntry> = Vec::new();
    let mut i: usize = 0;
    assert(entry_views(entries@) =~= text_entries(s.metadata.take(0)));
    while i < config.metadata.len()
        invariant
            i <= config.metadata@.len(),
            s == call_settings(*config),
            entry_views(entries@) == text_entries(s.metadata.take(i as int)),
            text_refusal(s.metadata, 0) == text_refusal(s.metadata, i as int),
        decreases config.metadata@.len() - i,
    {
        let name = &config.metadata[i].0;
        let value = &config.metadata[i].1;
        assert(s.metadata[i as int] == (name@, value@));
        if !check_text_key(name.as_str()) {
            return Err(
                join3(
                    "invalid gRPC metadata key '",
                    name.as_str(),
                    "': invalid gRPC metadata key name",
                ),
            );
        }
        if !check_metadata_text(value.as_str()) {
            return Err(
                join3(
                    "invalid gRPC metadata value for '",
                    name.as_str(),
                    "': failed to parse metadata value",
                ),
            );
        }
        let ghost before = entries@;
        entries.push(CallEntry { name: name.clone(), value: EntryValue::Text(value.clone()) });
        assert(entry_views(entries@) =~= entry_views(before).push(text_entry(name@, value@)));
        assert(text_entries(s.metadata.take(i + 1)) =~= text_entries(
            s.metadata.take(i as int),
        ).push(text_entry(name@, value@)));
        i += 1;
    }
    assert(s.metadata.take(s.metadata.len() as int) =~= s.metadata);
    let ghost head = text_entries(s.metadata);
    let mut j: usize = 0;
    assert(entry_views(entries@) =~= head + binary_entries(s.binary.take(0)));
    while j < config.binary_metadata.len()
        invariant
            j <= config.binary_metadata@.len(),
            s == call_settings(*config),
            text_refusal(s.metadata, 0) is None,
            entry_views(entries@) == head + binary_entries(s.binary.take(j as int)),
            binary_refusal(s.binary, 0) == binary_refusal(s.binary, j as int),
        decreases config.binary_metadata@.len() - j,
    {
        let name = &config.binary_metadata[j].0;
        assert(s.binary[j as int] == (name@, config.binary_metadata@[j as int].1@));
        if !check_binary_key(name.as_str()) {
            return Err(
                join3(
                    "invalid binary gRPC metadata key '",
                    name.as_str(),
                    "': invalid gRPC metadata key name",
                ),
            );
        }
        let ghost before = entries@;
        let bytes = copy_bytes(config.binary_metadata[j].1.as_slice());
        let ghost view = EntryView { name: name@, value: EntryValueView::Binary(bytes@) };
        entries.push(CallEntry { name: name.clone(), value: EntryValue::Binary(bytes) });
        assert(entry_views(entries@) =~= entry_views(before).push(view));
        assert(binary_entries(s.binary.take(j + 1)) =~= binary_entries(
            s.binary.take(j as int),
        ).push(view));
        assert(entry_views(entries@) =~= head + binary_entries(s.binary.take(j + 1)));
        j += 1;
    }
    assert(s.binary.take(s.binary.len() as int) =~= s.binary);
    let ghost mid = entry_views(entries@);
    if let Some(token) = &config.bearer_token {
        let value = join2("Bearer ", token.as_str());
        if !check_metadata_text(value.as_str()) {
            return Err("bearer_token is not a valid gRPC metadata value".to_owned());
        }
        let ghost before = entries@;
        entries.push(
            CallEntry { name: "authorization".to_owned(), value: EntryValue::Text(value) },
        );
        assert(entry_views(entries@) =~= entry_views(before).push(
            text_entry("authorization"@, value@),
        ));
    }
    let ghost third = entry_views(entries@);
    assert(third =~= mid + (match s.token {
        Some(t) => seq![text_entry("authorization"@, "Bearer "@ + t)],
        None => seq![],
    }));
    if let Some(api_key) = &config.api_key {
        let name = match &config.api_key_name {
            Some(n) => n.clone(),
            None => "x-api-key".to_owned(),
        };
        assert(name@ == key_name(s));
        if !check_text_key(name.as_str()) {
            return Err(
                join3(
                    "invalid api_key_name '",
                    name.as_str(),
                    "': invalid gRPC metadata key name",
                ),
            );
        }
        if !check_metadata_text(api_key.as_str()) {
            return Err("api_key is not a valid gRPC metadata value".to_owned());
        }
        let ghost before = entries@;
        entries.push(CallEntry { name, value: EntryValue::Text(api_key.clone()) });
        assert(entry_views(entries@) =~= entry_views(before).push(
            text_entry(key_name(s), api_key@),
        ));
    }
    assert(entry_views(entries@) =~= call_entries(s));
    Ok(entries)
}

/// The settings for calls that are present, by name.
pub open spec fn present(config: GrpcConfig) -> Seq<Seq<char>> {
    let a: Seq<Seq<char>> = if config.metadata@.len() > 0 {
        seq!["metadata"@]
    } else {
        seq![]
    };
    let b = if config.binary_metadata@.len() > 0 {
        a.push("binary_metadata"@)
    } else {
        a
    };
    let c = if config.bearer_token is Some {
        b.push("bearer_token"@)
    } else {
        b
    };
    if config.api_key is Some {
        c.push("api_key"@)
    } else {
        c
    }
}

/// Texts in order with a comma and a space between them.
pub open spec fn comma_joined(parts: Seq<Seq<char>>) -> Seq<char>
    decreases parts.len(),
{
    if parts.len() == 0 {
        seq![]
    } else if parts.len() == 1 {
        parts[0]
    } else {
        comma_joined(parts.drop_last()) + ", "@ + parts.last()
    }
}

/// Why a mode without call metadata refuses a configuration.
pub open spec fn unsupported_text(mode: Seq<char>, parts: Seq<Seq<char>>) -> Seq<char> {
    "gRPC "@ + mode + " mode does not send "@ + comma_joined(parts)
        + "; these apply only to dynamic descriptor-driven calls. Use TLS client certificates for the Bridge protocol."@
}

fn join_more(list: String, first: bool, part: &str) -> (out: String)
    ensures
        out@ == (if first {
            part@
        } else {
            list@ + ", "@ + part@
        }),
{
    if first {
        part.to_owned()
    } else {
        join3(list.as_str(), ", ", part)
    }
}

/// Refuses metadata and credentials in a mode that does not send them.
pub fn reject_unsupported_call_metadata(config: &GrpcConfig, mode: &str) -> (res: Result<
    (),
    String,
>)
    ensures
        match res {
            Ok(_) => present(*config).len() == 0,
            Err(e) => {
                &&& present(*config).len() > 0
                &&& e@ == unsupported_text(mode@, present(*config))
            },
        },
{
    let mut list = String::new();
    let mut none: bool = true;
    let ghost mut parts: Seq<Seq<char>> = seq![];
    assert(list@ =~= comma_joined(parts));
    if config.metadata.len() > 0 {
        list = join_more(list, none, "metadata");
        none = false;
        proof {
            parts = seq!["metadata"@];
        }
    }
    assert(list@ == comma_joined(parts) && none == (parts.len() == 0));
    if config.binary_metadata.len() > 0 {
        list = join_more(list, none, "binary_metadata");
        none = false;
        proof {
            assert(parts.push("binary_metadata"@).drop_last() =~= parts);
            parts = parts.push("binary_metadata"@);
        }
    }
    assert(list@ == comma_joined(parts) && none == (parts.len() == 0));
    if config.bearer_token.is_some() {
        list = join_more(list, none, "bearer_token");
        none = false;
        proof {
            assert(parts.push("bearer_token"@).drop_last() =~= parts);
            parts = parts.push("bearer_token"@);
        }
    }
    assert(list@ == comma_joined(parts) && none == (parts.len() == 0));
    if config.api_key.is_some() {
        list = join_more(list, none, "api_key");
        none = false;
        proof {
            assert(parts.push("api_key"@).drop_last() =~= parts);
            parts = parts.push("api_key"@);
        }
    }
    assert(parts == present(*config));
    if none {
        return Ok(());
    }
    Err(
        join5(
            "gRPC ",
            mode,
            " mode does not send ",
            list.as_str(),
            "; these apply only to dynamic descriptor-driven calls. Use TLS client certificates for the Bridge protocol.",
        ),
    )
}

} // verus!
