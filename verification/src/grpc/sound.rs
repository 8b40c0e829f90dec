//! Whether a descriptor pool can work with a set of file descriptors.
//!
//! A pool takes some sets that it then fails on: a map entry without a key, files that
//! import each other in a circle, an extension that is declared twice, options that are
//! declared other than they are. These are told apart here, before a pool is built.

use vstd::prelude::*;

use crate::grpc::shapes::{
    field_shapes, file_shapes, files_in, lemma_nested, list_files, message_shapes, name_rows,
    FieldShape, FieldShapeView, FileShape, FileShapeView, MessageShape, MessageShapeView,
};
use crate::text::{chars_of, join3, same, same_chars, texts};

verus! {

/// The numbers that descriptors have for kinds of fields, and for a repeated one.
pub const BOOL: i32 = 8;
pub const STRING: i32 = 9;
pub const BYTES: i32 = 12;
pub const ENUM: i32 = 14;
pub const REPEATED: i32 = 3;

/// How an option is declared where options are declared as they are: its name, its
/// kind, and the name of its type.
pub struct OptionView {
    pub name: Seq<char>,
    pub kind: i32,
    pub type_ref: Seq<char>,
}

struct KnownOption {
    name: &'static str,
    kind: i32,
    type_ref: &'static str,
}

spec fn option_of(o: Option<KnownOption>) -> Option<OptionView> {
    match o {
        Some(k) => Some(OptionView { name: k.name@, kind: k.kind, type_ref: k.type_ref@ }),
        None => None,
    }
}

/// An option that holds text.
pub open spec fn text_option(name: Seq<char>) -> Option<OptionView> {
    Some(OptionView { name, kind: STRING, type_ref: ""@ })
}

/// An option that is set or not.
pub open spec fn flag_option(name: Seq<char>) -> Option<OptionView> {
    Some(OptionView { name, kind: BOOL, type_ref: ""@ })
}

/// An option that is one of an enumeration.
pub open spec fn choice_option(name: Seq<char>, type_ref: Seq<char>) -> Option<OptionView> {
    Some(OptionView { name, kind: ENUM, type_ref })
}

fn known_text(name: &'static str) -> (o: Option<KnownOption>)
    ensures
        option_of(o) == text_option(name@),
{
    Some(KnownOption { name, kind: STRING, type_ref: "" })
}

fn known_flag(name: &'static str) -> (o: Option<KnownOption>)
    ensures
        option_of(o) == flag_option(name@),
{
    Some(KnownOption { name, kind: BOOL, type_ref: "" })
}

fn known_choice(name: &'static str, type_ref: &'static str) -> (o: Option<KnownOption>)
    ensures
        option_of(o) == choice_option(name@, type_ref@),
{
    Some(KnownOption { name, kind: ENUM, type_ref })
}

/// The options of files, by number.
pub open spec fn file_option(number: i32) -> Option<OptionView> {
    match number {
        1 => text_option("java_package"@),
        8 => text_option("java_outer_classname"@),
        9 => choice_option("optimize_for"@, ".google.protobuf.FileOptions.OptimizeMode"@),
        10 => flag_option("java_multiple_files"@),
        11 => text_option("go_package"@),
        16 => flag_option("cc_generic_services"@),
        17 => flag_option("java_generic_services"@),
        18 => flag_option("py_generic_services"@),
        20 => flag_option("java_generate_equals_and_hash"@),
        23 => flag_option("deprecated"@),
        27 => flag_option("java_string_check_utf8"@),
        31 => flag_option("cc_enable_arenas"@),
        36 => text_option("objc_class_prefix"@),
        37 => text_option("csharp_namespace"@),
        39 => text_option("swift_prefix"@),
        40 => text_option("php_class_prefix"@),
        41 => text_option("php_namespace"@),
        42 => flag_option("php_generic_services"@),
        44 => text_option("php_metadata_namespace"@),
        45 => text_option("ruby_package"@),
        _ => None,
    }
}

fn known_file_option(number: i32) -> (o: Option<KnownOption>)
    ensures
        option_of(o) == file_option(number),
{
    match number {
        1 => known_text("java_package"),
        8 => known_text("java_outer_classname"),
        9 => known_choice("optimize_for", ".google.protobuf.FileOptions.OptimizeMode"),
        10 => known_flag("java_multiple_files"),
        11 => known_text("go_package"),
        16 => known_flag("cc_generic_services"),
        17 => known_flag("java_generic_services"),
        18 => known_flag("py_generic_services"),
        20 => known_flag("java_generate_equals_and_hash"),
        23 => known_flag("deprecated"),
        27 => Some(KnownOption { name: "java_string_check_utf8", kind: BOOL, type_ref: "" }),
        31 => known_flag("cc_enable_arenas"),
        36 => known_text("objc_class_prefix"),
        37 => known_text("csharp_namespace"),
        39 => known_text("swift_prefix"),
        40 => known_text("php_class_prefix"),
        41 => known_text("php_namespace"),
        42 => known_flag("php_generic_services"),
        44 => known_text("php_metadata_namespace"),
        45 => known_text("ruby_package"),
        _ => None,
    }
}

/// The options of messages, by number.
pub open spec fn message_option(number: i32) -> Option<OptionView> {
    match number {
        1 => flag_option("message_set_wire_format"@),
        2 => flag_option("no_standard_descriptor_accessor"@),
        3 => flag_option("deprecated"@),
        7 => flag_option("map_entry"@),
        _ => None,
    }
}

fn known_message_option(number: i32) -> (o: Option<KnownOption>)
    ensures
        option_of(o) == message_option(number),
{
    match number {
        1 => known_flag("message_set_wire_format"),
        2 => known_flag("no_standard_descriptor_accessor"),
        3 => known_flag("deprecated"),
        7 => known_flag("map_entry"),
        _ => None,
    }
}

/// The options of fields, by number.
pub open spec fn field_option(number: i32) -> Option<OptionView> {
    match number {
        1 => choice_option("ctype"@, ".google.protobuf.FieldOptions.CType"@),
        2 => flag_option("packed"@),
        3 => flag_option("deprecated"@),
        5 => flag_option("lazy"@),
        6 => choice_option("jstype"@, ".google.protobuf.FieldOptions.JSType"@),
        10 => flag_option("weak"@),
        _ => None,
    }
}

fn known_field_option(number: i32) -> (o: Option<KnownOption>)
    ensures
        option_of(o) == field_option(number),
{
    match number {
        1 => known_choice("ctype", ".google.protobuf.FieldOptions.CType"),
        2 => known_flag("packed"),
        3 => known_flag("deprecated"),
        5 => known_flag("lazy"),
        6 => known_choice("jstype", ".google.protobuf.FieldOptions.JSType"),
        10 => known_flag("weak"),
        _ => None,
    }
}

/// The options of enumerations, by number.
pub open spec fn enum_option(number: i32) -> Option<OptionView> {
    match number {
        2 => flag_option("allow_alias"@),
        3 => flag_option("deprecated"@),
        _ => None,
    }
}

fn known_enum_option(number: i32) -> (o: Option<KnownOption>)
    ensures
        option_of(o) == enum_option(number),
{
    match number {
        2 => known_flag("allow_alias"),
        3 => known_flag("deprecated"),
        _ => None,
    }
}

/// The options of values of enumerations, by number.
pub open spec fn enum_value_option(number: i32) -> Option<OptionView> {
    match number {
        1 => flag_option("deprecated"@),
        _ => None,
    }
}

fn known_enum_value_option(number: i32) -> (o: Option<KnownOption>)
    ensures
        option_of(o) == enum_value_option(number),
{
    match number {
        1 => known_flag("deprecated"),
        _ => None,
    }
}

/// The options of services, by number.
pub open spec fn service_option(number: i32) -> Option<OptionView> {
    match number {
        33 => flag_option("deprecated"@),
        _ => None,
    }
}

fn known_service_option(number: i32) -> (o: Option<KnownOption>)
    ensures
        option_of(o) == service_option(number),
{
    match number {
        33 => known_flag("deprecated"),
        _ => None,
    }
}

/// The options of methods, by number.
pub open spec fn method_option(number: i32) -> Option<OptionView> {
    match number {
        33 => flag_option("deprecated"@),
        34 => choice_option(
            "idempotency_level"@,
            ".google.protobuf.MethodOptions.IdempotencyLevel"@,
        ),
        _ => None,
    }
}

fn known_method_option(number: i32) -> (o: Option<KnownOption>)
    ensures
        option_of(o) == method_option(number),
{
    match number {
        33 => known_flag("deprecated"),
        34 => known_choice("idempotency_level", ".google.protobuf.MethodOptions.IdempotencyLevel"),
        _ => None,
    }
}

/// The option with this number of a message that holds options.
pub open spec fn standard_option(message: Seq<char>, number: i32) -> Option<OptionView> {
    if message == "google.protobuf.FileOptions"@ {
        file_option(number)
    } else if message == "google.protobuf.MessageOptions"@ {
        message_option(number)
    } else if message == "google.protobuf.FieldOptions"@ {
        field_option(number)
    } else if message == "google.protobuf.EnumOptions"@ {
        enum_option(number)
    } else if message == "google.protobuf.EnumValueOptions"@ {
        enum_value_option(number)
    } else if message == "google.protobuf.ServiceOptions"@ {
        service_option(number)
    } else if message == "google.protobuf.MethodOptions"@ {
        method_option(number)
    } else {
        None
    }
}

fn known_option(message: &str, number: i32) -> (o: Option<KnownOption>)
    ensures
        option_of(o) == standard_option(message@, number),
{
    if same(message, "google.protobuf.FileOptions") {
        known_file_option(number)
    } else if same(message, "google.protobuf.MessageOptions") {
        known_message_option(number)
    } else if same(message, "google.protobuf.FieldOptions") {
        known_field_option(number)
    } else if same(message, "google.protobuf.EnumOptions") {
        known_enum_option(number)
    } else if same(message, "google.protobuf.EnumValueOptions") {
        known_enum_value_option(number)
    } else if same(message, "google.protobuf.ServiceOptions") {
        known_service_option(number)
    } else if same(message, "google.protobuf.MethodOptions") {
        known_method_option(number)
    } else {
        None
    }
}

/// Whether a kind of field can be the key of a map.
pub open spec fn is_key_kind(kind: i32) -> bool {
    ||| 3 <= kind <= 9
    ||| kind == 13
    ||| 15 <= kind <= 18
}

/// Whether a field can be the key of a map.
pub open spec fn is_key(f: FieldShapeView) -> bool {
    is_key_kind(f.kind) && f.type_ref.len() == 0
}

/// Whether one of the fields has this number.
pub open spec fn has_number(fields: Seq<FieldShapeView>, number: i32) -> bool {
    exists|i: int| 0 <= i < fields.len() && (#[trigger] fields[i]).number == number
}

/// Whether the fields are those of a map entry: a key that can be one, and a value.
pub open spec fn entry_sound(fields: Seq<FieldShapeView>) -> bool {
    &&& has_number(fields, 1)
    &&& has_number(fields, 2)
    &&& forall|i: int| 0 <= i < fields.len() && (#[trigger] fields[i]).number == 1 ==> is_key(
        fields[i],
    )
}

fn entry_is_sound(fields: &Vec<FieldShape>) -> (ok: bool)
    ensures
        ok == entry_sound(field_shapes(fields@)),
{
    let ghost all = field_shapes(fields@);
    let mut key = false;
    let mut value = false;
    let mut i: usize = 0;
    while i < fields.len()
        invariant
            i <= fields@.len(),
            all == field_shapes(fields@),
            key == (exists|k: int| 0 <= k < i && (#[trigger] all[k]).number == 1),
            value == (exists|k: int| 0 <= k < i && (#[trigger] all[k]).number == 2),
            forall|k: int| 0 <= k < i && (#[trigger] all[k]).number == 1 ==> is_key(all[k]),
        decreases fields@.len() - i,
    {
        assert(all[i as int] == fields@[i as int]@);
        if fields[i].number == 1 {
            let kind: i32 = fields[i].kind;
            let keyed = (3 <= kind && kind <= 9) || kind == 13 || (15 <= kind && kind <= 18);
            if !keyed || !fields[i].type_ref.as_str().is_empty() {
                assert(!is_key(all[i as int]));
                return false;
            }
            key = true;
        }
        if fields[i].number == 2 {
            value = true;
        }
        i += 1;
    }
    key && value
}

/// Whether a message is an entry of a map, or an option may still make it one.
pub open spec fn may_be_entry(m: MessageShapeView) -> bool {
    m.map_entry || names_entry(m.option_names)
}

/// Whether one of these names begins as the option that makes a message an entry.
pub open spec fn names_entry(names: Seq<Seq<Seq<char>>>) -> bool {
    exists|i: int|
        0 <= i < names.len() && (#[trigger] names[i]).len() > 0 && names[i][0] == "map_entry"@
}

fn do_name_entry(names: &Vec<Vec<String>>) -> (found: bool)
    ensures
        found == names_entry(name_rows(names@)),
{
    let ghost all = name_rows(names@);
    let mut i: usize = 0;
    while i < names.len()
        invariant
            i <= names@.len(),
            all == name_rows(names@),
            forall|k: int|
                0 <= k < i ==> !((#[trigger] all[k]).len() > 0 && all[k][0] == "map_entry"@),
        decreases names@.len() - i,
    {
        assert(all[i as int] == texts(names@[i as int]@));
        if names[i].len() > 0 {
            assert(all[i as int][0] == names@[i as int]@[0]@);
            if same(names[i][0].as_str(), "map_entry") {
                return true;
            }
        }
        i += 1;
    }
    false
}

/// Whether the fields of a message that holds options are declared as they are. A field
/// with the number of no such option is free.
pub open spec fn options_sound(message: Seq<char>, fields: Seq<FieldShapeView>) -> bool {
    forall|i: int|
        0 <= i < fields.len() ==> (standard_option(message, (#[trigger] fields[i]).number)
            matches Some(o) ==> {
            &&& fields[i].name == o.name
            &&& fields[i].kind == o.kind
            &&& fields[i].type_ref == o.type_ref
            &&& fields[i].label != REPEATED
        })
}

fn options_are_sound(message: &str, fields: &Vec<FieldShape>) -> (ok: bool)
    ensures
        ok == options_sound(message@, field_shapes(fields@)),
{
    let ghost all = field_shapes(fields@);
    let mut i: usize = 0;
    while i < fields.len()
        invariant
            i <= fields@.len(),
            all == field_shapes(fields@),
            forall|k: int|
                0 <= k < i ==> (standard_option(message@, (#[trigger] all[k]).number) matches Some(
                    o,
                ) ==> {
                    &&& all[k].name == o.name
                    &&& all[k].kind == o.kind
                    &&& all[k].type_ref == o.type_ref
                    &&& all[k].label != REPEATED
                }),
        decreases fields@.len() - i,
    {
        assert(all[i as int] == fields@[i as int]@);
        if let Some(o) = known_option(message, fields[i].number) {
            let f = &fields[i];
            if !same(f.name.as_str(), o.name) || f.kind != o.kind || !same(
                f.type_ref.as_str(),
                o.type_ref,
            ) || f.label == REPEATED {
                return false;
            }
        }
        i += 1;
    }
    true
}

/// Whether this is the full name of an enumeration that an option takes its values from.
pub open spec fn is_option_enum(name: Seq<char>) -> bool {
    ||| name == "google.protobuf.FileOptions.OptimizeMode"@
    ||| name == "google.protobuf.FieldOptions.CType"@
    ||| name == "google.protobuf.FieldOptions.JSType"@
    ||| name == "google.protobuf.MethodOptions.IdempotencyLevel"@
}

/// Whether this is the last part of the name of a message that holds options.
pub open spec fn is_options_name(name: Seq<char>) -> bool {
    ||| name == "FileOptions"@
    ||| name == "MessageOptions"@
    ||| name == "FieldOptions"@
    ||| name == "OneofOptions"@
    ||| name == "EnumOptions"@
    ||| name == "EnumValueOptions"@
    ||| name == "ServiceOptions"@
    ||| name == "MethodOptions"@
    ||| name == "ExtensionRangeOptions"@
}

/// Whether a character is a digit below eight.
pub open spec fn is_octal(c: char) -> bool {
    '0' <= c <= '7'
}

/// Whether the escapes in a text from position `i` on stand for bytes: no three octal
/// digits above the largest byte, and no hexadecimal escape next to other than ASCII.
pub open spec fn escapes_fit(s: Seq<char>, i: int) -> bool
    decreases s.len() - i,
{
    if i + 1 >= s.len() {
        true
    } else if s[i] != '\\' {
        escapes_fit(s, i + 1)
    } else if '4' <= s[i + 1] <= '7' && i + 3 < s.len() && is_octal(s[i + 2]) && is_octal(
        s[i + 3],
    ) {
        false
    } else if (s[i + 1] == 'x' || s[i + 1] == 'X') && ((i + 2 < s.len() && s[i + 2] as u32 > 127)
        || (i + 3 < s.len() && s[i + 3] as u32 > 127)) {
        false
    } else {
        escapes_fit(s, i + 2)
    }
}

fn do_escapes_fit(text: &str) -> (ok: bool)
    ensures
        ok == escapes_fit(text@, 0),
{
    let s = chars_of(text);
    let n: usize = s.len();
    let mut i: usize = 0;
    while i < n && n - i > 1
        invariant
            n == s@.len(),
            s@ == text@,
            escapes_fit(s@, 0) == escapes_fit(s@, i as int),
            i <= n,
        decreases n - i,
    {
        if s[i] != '\\' {
            i += 1;
        } else {
            let c = s[i + 1];
            let left: usize = n - i;
            if '4' <= c && c <= '7' && left > 3 && '0' <= s[i + 2] && s[i + 2] <= '7' && '0' <= s[i
                + 3] && s[i + 3] <= '7' {
                return false;
            }
            if (c == 'x' || c == 'X') && ((left > 2 && s[i + 2] as u32 > 127) || (left > 3 && s[i
                + 3] as u32 > 127)) {
                return false;
            }
            i += 2;
        }
    }
    true
}

/// Whether the default of a field can be read: where it is bytes, its escapes stand for
/// bytes.
pub open spec fn default_sound(f: FieldShapeView) -> bool {
    f.kind == BYTES && f.type_ref.len() == 0 ==> (f.default_value matches Some(t) ==> escapes_fit(
        t,
        0,
    ))
}

fn default_is_sound(f: &FieldShape) -> (ok: bool)
    ensures
        ok == default_sound(f@),
{
    if f.kind == BYTES && f.type_ref.as_str().is_empty() {
        match &f.default_value {
            Some(t) => do_escapes_fit(t.as_str()),
            None => true,
        }
    } else {
        true
    }
}

/// What stands behind the last dot of a name.
pub open spec fn last_part(s: Seq<char>) -> Seq<char>
    decreases s.len(),
{
    if s.len() == 0 || s.last() == '.' {
        seq![]
    } else {
        last_part(s.drop_last()).push(s.last())
    }
}

fn last_part_of(text: &str) -> (out: Vec<char>)
    ensures
        out@ == last_part(text@),
{
    let s = chars_of(text);
    let mut out: Vec<char> = Vec::new();
    let mut i: usize = 0;
    assert(s@.take(0) =~= seq![]);
    while i < s.len()
        invariant
            i <= s@.len(),
            s@ == text@,
            out@ == last_part(s@.take(i as int)),
        decreases s@.len() - i,
    {
        assert(s@.take(i + 1).drop_last() =~= s@.take(i as int));
        if s[i] == '.' {
            out = Vec::new();
        } else {
            out.push(s[i]);
        }
        assert(out@ =~= last_part(s@.take(i + 1)));
        i += 1;
    }
    assert(s@.take(s@.len() as int) =~= s@);
    out
}

/// Whether an extension is sound: its default can be read, and it takes no number that
/// an option has.
pub open spec fn extension_sound(f: FieldShapeView) -> bool {
    &&& default_sound(f)
    &&& is_options_name(last_part(f.extendee)) ==> f.number >= 1000
}

fn is_options_part(part: &[char]) -> (res: bool)
    ensures
        res == is_options_name(part@),
{
    same_chars(part, chars_of("FileOptions").as_slice()) || same_chars(
        part,
        chars_of("MessageOptions").as_slice(),
    ) || same_chars(part, chars_of("FieldOptions").as_slice()) || same_chars(
        part,
        chars_of("OneofOptions").as_slice(),
    ) || same_chars(part, chars_of("EnumOptions").as_slice()) || same_chars(
        part,
        chars_of("EnumValueOptions").as_slice(),
    ) || same_chars(part, chars_of("ServiceOptions").as_slice()) || same_chars(
        part,
        chars_of("MethodOptions").as_slice(),
    ) || same_chars(part, chars_of("ExtensionRangeOptions").as_slice())
}

fn extension_is_sound(f: &FieldShape) -> (ok: bool)
    ensures
        ok == extension_sound(f@),
{
    if !default_is_sound(f) {
        return false;
    }
    f.number >= 1000 || !is_options_part(last_part_of(f.extendee.as_str()).as_slice())
}

/// The full name of what is declared in a scope.
pub open spec fn full_name(scope: Seq<char>, name: Seq<char>) -> Seq<char> {
    if scope.len() == 0 {
        name
    } else {
        scope + "."@ + name
    }
}

/// Whether a message and all that is nested in it are sound.
pub open spec fn message_sound(scope: Seq<char>, m: MessageShapeView) -> bool
    decreases m,
{
    let full = full_name(scope, m.name);
    &&& may_be_entry(m) ==> entry_sound(m.fields)
    &&& options_sound(full, m.fields)
    &&& !is_option_enum(full)
    &&& forall|i: int| 0 <= i < m.fields.len() ==> default_sound(#[trigger] m.fields[i])
    &&& forall|i: int| 0 <= i < m.extensions.len() ==> extension_sound(#[trigger] m.extensions[i])
    &&& forall|i: int|
        0 <= i < m.nested.len() ==> message_sound(full, #[trigger] m.nested[i])
}

fn full_name_of(scope: &str, name: &str) -> (out: String)
    ensures
        out@ == full_name(scope@, name@),
{
    if scope.is_empty() {
        name.to_owned()
    } else {
        join3(scope, ".", name)
    }
}

fn defaults_are_sound(v: &Vec<FieldShape>) -> (ok: bool)
    ensures
        ok == (forall|i: int|
            0 <= i < field_shapes(v@).len() ==> default_sound(#[trigger] field_shapes(v@)[i])),
{
    let ghost all = field_shapes(v@);
    let mut i: usize = 0;
    while i < v.len()
        invariant
            i <= v@.len(),
            all == field_shapes(v@),
            forall|k: int| 0 <= k < i ==> default_sound(#[trigger] all[k]),
        decreases v@.len() - i,
    {
        assert(all[i as int] == v@[i as int]@);
        if !default_is_sound(&v[i]) {
            return false;
        }
        i += 1;
    }
    true
}

fn extensions_are_sound(v: &Vec<FieldShape>) -> (ok: bool)
    ensures
        ok == (forall|i: int|
            0 <= i < field_shapes(v@).len() ==> extension_sound(#[trigger] field_shapes(v@)[i])),
{
    let ghost all = field_shapes(v@);
    let mut i: usize = 0;
    while i < v.len()
        invariant
            i <= v@.len(),
            all == field_shapes(v@),
            forall|k: int| 0 <= k < i ==> extension_sound(#[trigger] all[k]),
        decreases v@.len() - i,
    {
        assert(all[i as int] == v@[i as int]@);
        if !extension_is_sound(&v[i]) {
            return false;
        }
        i += 1;
    }
    true
}

fn message_is_sound(scope: &str, m: &MessageShape) -> (ok: bool)
    ensures
        ok == message_sound(scope@, m@),
    decreases m,
{
    let ghost v = m@;
    proof {
        lemma_nested(*m);
    }
    assert(v.fields == field_shapes(m.fields@));
    assert(v.extensions == field_shapes(m.extensions@));
    let full = full_name_of(scope, m.name.as_str());
    if (m.map_entry || do_name_entry(&m.option_names)) && !entry_is_sound(&m.fields) {
        return false;
    }
    if same(full.as_str(), "google.protobuf.FileOptions.OptimizeMode") || same(
        full.as_str(),
        "google.protobuf.FieldOptions.CType",
    ) || same(full.as_str(), "google.protobuf.FieldOptions.JSType") || same(
        full.as_str(),
        "google.protobuf.MethodOptions.IdempotencyLevel",
    ) {
        return false;
    }
    if !options_are_sound(full.as_str(), &m.fields) {
        return false;
    }
    if !defaults_are_sound(&m.fields) || !extensions_are_sound(&m.extensions) {
        return false;
    }
    let nested = messages_are_sound(full.as_str(), &m.nested);
    assert(nested == forall|i: int|
        0 <= i < v.nested.len() ==> message_sound(full@, #[trigger] v.nested[i]));
    nested
}

fn messages_are_sound(scope: &str, v: &Vec<MessageShape>) -> (ok: bool)
    ensures
        ok == (forall|i: int|
            0 <= i < message_shapes(v@).len() ==> message_sound(
                scope@,
                #[trigger] message_shapes(v@)[i],
            )),
    decreases v,
{
    let ghost all = message_shapes(v@);
    let mut i: usize = 0;
    while i < v.len()
        invariant
            i <= v@.len(),
            all == message_shapes(v@),
            forall|k: int| 0 <= k < i ==> message_sound(scope@, #[trigger] all[k]),
        decreases v@.len() - i,
    {
        assert(all[i as int] == v@[i as int]@);
        if !message_is_sound(scope, &v[i]) {
            return false;
        }
        i += 1;
    }
    true
}

/// Whether a name is written in full.
pub open spec fn is_absolute(name: Seq<char>) -> bool {
    name.len() > 0 && name[0] == '.'
}

/// Whether two names may be names of one message.
pub open spec fn may_be_same(a: Seq<char>, b: Seq<char>) -> bool {
    if is_absolute(a) && is_absolute(b) {
        a == b
    } else {
        last_part(a) == last_part(b)
    }
}

/// Whether two extensions hold values of one form.
pub open spec fn same_form(a: FieldShapeView, b: FieldShapeView) -> bool {
    &&& a.kind == b.kind
    &&& a.label == b.label
    &&& a.type_ref == b.type_ref
    &&& a.type_ref.len() == 0 || is_absolute(a.type_ref)
}

/// Whether two extensions may be of one message and one number, and differ in form.
pub open spec fn clash(a: FieldShapeView, b: FieldShapeView) -> bool {
    &&& a.number == b.number
    &&& may_be_same(a.extendee, b.extendee)
    &&& !same_form(a, b)
}

fn absolute(name: &str) -> (res: bool)
    ensures
        res == is_absolute(name@),
{
    let s = chars_of(name);
    s.len() > 0 && s[0] == '.'
}

fn do_clash(a: &FieldShape, b: &FieldShape) -> (res: bool)
    ensures
        res == clash(a@, b@),
{
    if a.number != b.number {
        return false;
    }
    let met = if absolute(a.extendee.as_str()) && absolute(b.extendee.as_str()) {
        same(a.extendee.as_str(), b.extendee.as_str())
    } else {
        same_chars(
            last_part_of(a.extendee.as_str()).as_slice(),
            last_part_of(b.extendee.as_str()).as_slice(),
        )
    };
    let alike = a.kind == b.kind && a.label == b.label && same(
        a.type_ref.as_str(),
        b.type_ref.as_str(),
    ) && (a.type_ref.as_str().is_empty() || absolute(a.type_ref.as_str()));
    met && !alike
}

/// The extensions that a message declares, and those that what is nested in it does.
pub open spec fn extensions_of(m: MessageShapeView) -> Seq<FieldShapeView>
    decreases m, 0nat,
{
    m.extensions + extensions_among(m.nested, m.nested.len())
}

/// The extensions that the first `n` messages declare.
pub open spec fn extensions_among(v: Seq<MessageShapeView>, n: nat) -> Seq<FieldShapeView>
    decreases v, n,
{
    if n == 0 || n > v.len() {
        seq![]
    } else {
        extensions_among(v, (n - 1) as nat) + extensions_of(v[n - 1])
    }
}

/// The extensions that the first `n` files declare.
pub open spec fn declared_extensions(files: Seq<FileShapeView>, n: nat) -> Seq<FieldShapeView>
    decreases n,
{
    if n == 0 || n > files.len() {
        seq![]
    } else {
        let f = files[n - 1];
        declared_extensions(files, (n - 1) as nat) + f.extensions + extensions_among(
            f.messages,
            f.messages.len(),
        )
    }
}

impl FieldShape {
    /// The same declaration again.
    pub fn copy(&self) -> (out: FieldShape)
        ensures
            out@ == self@,
    {
        FieldShape {
            name: self.name.clone(),
            number: self.number,
            kind: self.kind,
            label: self.label,
            type_ref: self.type_ref.clone(),
            extendee: self.extendee.clone(),
            default_value: match &self.default_value {
                Some(t) => Some(t.clone()),
                None => None,
            },
        }
    }
}

fn push_fields(out: &mut Vec<FieldShape>, v: &Vec<FieldShape>)
    ensures
        field_shapes(final(out)@) == field_shapes(old(out)@) + field_shapes(v@),
{
    let ghost before = field_shapes(out@);
    let ghost all = field_shapes(v@);
    let mut i: usize = 0;
    assert(before + all.take(0) =~= before);
    while i < v.len()
        invariant
            i <= v@.len(),
            all == field_shapes(v@),
            field_shapes(out@) == before + all.take(i as int),
        decreases v@.len() - i,
    {
        let ghost mid = out@;
        out.push(v[i].copy());
        assert(field_shapes(out@) =~= field_shapes(mid).push(all[i as int]));
        assert(before + all.take(i + 1) =~= (before + all.take(i as int)).push(all[i as int]));
        i += 1;
    }
    assert(all.take(all.len() as int) =~= all);
}

fn push_extensions(out: &mut Vec<FieldShape>, m: &MessageShape)
    ensures
        field_shapes(final(out)@) == field_shapes(old(out)@) + extensions_of(m@),
    decreases m,
{
    proof {
        lemma_nested(*m);
    }
    assert(m@.extensions == field_shapes(m.extensions@));
    let ghost before = field_shapes(out@);
    push_fields(out, &m.extensions);
    push_nested_extensions(out, &m.nested);
    assert(field_shapes(out@) =~= before + extensions_of(m@));
}

fn push_nested_extensions(out: &mut Vec<FieldShape>, v: &Vec<MessageShape>)
    ensures
        field_shapes(final(out)@) == field_shapes(old(out)@) + extensions_among(
            message_shapes(v@),
            v@.len(),
        ),
    decreases v,
{
    let ghost before = field_shapes(out@);
    let ghost all = message_shapes(v@);
    let mut i: usize = 0;
    assert(before + extensions_among(all, 0) =~= before);
    while i < v.len()
        invariant
            i <= v@.len(),
            all == message_shapes(v@),
            field_shapes(out@) == before + extensions_among(all, i as nat),
        decreases v@.len() - i,
    {
        assert(all[i as int] == v@[i as int]@);
        let ghost mid = field_shapes(out@);
        push_extensions(out, &v[i]);
        assert(field_shapes(out@) =~= before + extensions_among(all, (i + 1) as nat));
        i += 1;
    }
}

/// Whether no two of these extensions clash.
pub open spec fn no_clash(v: Seq<FieldShapeView>) -> bool {
    forall|i: int, j: int|
        0 <= i < j < v.len() ==> !clash(#[trigger] v[i], #[trigger] v[j])
}

fn do_not_clash(v: &Vec<FieldShape>) -> (ok: bool)
    ensures
        ok == no_clash(field_shapes(v@)),
{
    let ghost all = field_shapes(v@);
    let mut j: usize = 0;
    while j < v.len()
        invariant
            j <= v@.len(),
            all == field_shapes(v@),
            forall|a: int, b: int|
                0 <= a < b < j ==> !clash(#[trigger] all[a], #[trigger] all[b]),
        decreases v@.len() - j,
    {
        let mut i: usize = 0;
        while i < j
            invariant
                i <= j < v@.len(),
                all == field_shapes(v@),
                forall|a: int| 0 <= a < i ==> !clash(#[trigger] all[a], all[j as int]),
            decreases j - i,
        {
            assert(all[i as int] == v@[i as int]@);
            assert(all[j as int] == v@[j as int]@);
            if do_clash(&v[i], &v[j]) {
                return false;
            }
            i += 1;
        }
        j += 1;
    }
    true
}

/// Whether a file imports another publicly.
pub open spec fn imports_publicly(f: FileShapeView, g: FileShapeView) -> bool {
    exists|p: int|
        0 <= p < f.public_imports.len() && is_import_of(f, #[trigger] f.public_imports[p], g)
}

/// Whether the import at this position is another file.
pub open spec fn is_import_of(f: FileShapeView, at: i32, g: FileShapeView) -> bool {
    0 <= at < f.imports.len() && f.imports[at as int] == g.name
}

/// Whether following public imports from a file comes to an end within `steps` steps.
pub open spec fn imports_end(files: Seq<FileShapeView>, i: int, steps: nat) -> bool
    decreases steps,
{
    steps > 0 && forall|j: int|
        0 <= j < files.len() && imports_publicly(files[i], #[trigger] files[j]) ==> imports_end(
            files,
            j,
            (steps - 1) as nat,
        )
}

fn does_import(f: &FileShape, g: &FileShape) -> (res: bool)
    ensures
        res == imports_publicly(f@, g@),
{
    let ghost view = f@;
    let mut p: usize = 0;
    while p < f.public_imports.len()
        invariant
            p <= f.public_imports@.len(),
            view == f@,
            forall|q: int|
                0 <= q < p ==> !is_import_of(view, #[trigger] view.public_imports[q], g@),
        decreases f.public_imports@.len() - p,
    {
        let at: i32 = f.public_imports[p];
        if at >= 0 && (at as usize) < f.imports.len() {
            assert(view.imports[at as int] == f.imports@[at as int]@);
            if same(f.imports[at as usize].as_str(), g.name.as_str()) {
                assert(is_import_of(view, view.public_imports[p as int], g@));
                return true;
            }
        }
        p += 1;
    }
    false
}

/// For each file whether following public imports from it comes to an end within one
/// step more than is known so far.
fn next_round(files: &Vec<FileShape>, done: &Vec<bool>, Ghost(steps): Ghost<nat>) -> (out: Vec<
    bool,
>)
    requires
        done@.len() == files@.len(),
        forall|i: int|
            0 <= i < done@.len() ==> #[trigger] done@[i] == imports_end(
                file_shapes(files@),
                i,
                steps,
            ),
    ensures
        out@.len() == files@.len(),
        forall|i: int|
            0 <= i < out@.len() ==> #[trigger] out@[i] == imports_end(
                file_shapes(files@),
                i,
                steps + 1,
            ),
{
    let ghost all = file_shapes(files@);
    let mut out: Vec<bool> = Vec::new();
    let mut i: usize = 0;
    while i < files.len()
        invariant
            i <= files@.len(),
            i == out@.len(),
            all == file_shapes(files@),
            done@.len() == files@.len(),
            forall|k: int|
                0 <= k < done@.len() ==> #[trigger] done@[k] == imports_end(all, k, steps),
            forall|k: int|
                0 <= k < i ==> #[trigger] out@[k] == imports_end(all, k, steps + 1),
        decreases files@.len() - i,
    {
        let mut ends = true;
        let mut j: usize = 0;
        while j < files.len()
            invariant
                i < files@.len(),
                j <= files@.len(),
                all == file_shapes(files@),
                done@.len() == files@.len(),
                forall|k: int|
                    0 <= k < done@.len() ==> #[trigger] done@[k] == imports_end(all, k, steps),
                ends == (forall|k: int|
                    0 <= k < j && imports_publicly(all[i as int], #[trigger] all[k])
                        ==> imports_end(all, k, steps)),
            decreases files@.len() - j,
        {
            assert(all[i as int] == files@[i as int]@);
            assert(all[j as int] == files@[j as int]@);
            assert(done@[j as int] == imports_end(all, j as int, steps));
            if !done[j] && does_import(&files[i], &files[j]) {
                ends = false;
            }
            j += 1;
        }
        out.push(ends);
        assert(ends == imports_end(all, i as int, steps + 1));
        i += 1;
    }
    out
}

fn all_imports_end(files: &Vec<FileShape>) -> (ok: bool)
    ensures
        ok == (forall|i: int|
            0 <= i < files@.len() ==> #[trigger] imports_end(
                file_shapes(files@),
                i,
                files@.len(),
            )),
{
    let ghost all = file_shapes(files@);
    let mut done: Vec<bool> = Vec::new();
    let mut i: usize = 0;
    while i < files.len()
        invariant
            i <= files@.len(),
            i == done@.len(),
            forall|k: int| 0 <= k < i ==> !(#[trigger] done@[k]),
        decreases files@.len() - i,
    {
        done.push(false);
        i += 1;
    }
    let mut round: usize = 0;
    while round < files.len()
        invariant
            round <= files@.len(),
            done@.len() == files@.len(),
            all == file_shapes(files@),
            forall|k: int|
                0 <= k < done@.len() ==> #[trigger] done@[k] == imports_end(
                    all,
                    k,
                    round as nat,
                ),
        decreases files@.len() - round,
    {
        done = next_round(files, &done, Ghost(round as nat));
        round += 1;
    }
    i = 0;
    while i < done.len()
        invariant
            i <= done@.len(),
            done@.len() == files@.len(),
            all == file_shapes(files@),
            forall|k: int|
                0 <= k < done@.len() ==> #[trigger] done@[k] == imports_end(
                    all,
                    k,
                    files@.len(),
                ),
            forall|k: int| 0 <= k < i ==> #[trigger] imports_end(all, k, files@.len()),
        decreases done@.len() - i,
    {
        assert(done@[i as int] == imports_end(all, i as int, files@.len()));
        if !done[i] {
            return false;
        }
        i += 1;
    }
    true
}

/// Whether a file is in one of the syntaxes that there are descriptors for.
pub open spec fn syntax_known(syntax: Option<Seq<char>>) -> bool {
    match syntax {
        None => true,
        Some(s) => s == "proto2"@ || s == "proto3"@,
    }
}

/// Whether what a file declares is sound by itself.
pub open spec fn file_sound(f: FileShapeView) -> bool {
    &&& syntax_known(f.syntax)
    &&& forall|i: int|
        0 <= i < f.messages.len() ==> message_sound(f.package, #[trigger] f.messages[i])
    &&& forall|i: int| 0 <= i < f.extensions.len() ==> extension_sound(#[trigger] f.extensions[i])
}

/// Whether a pool can work with these files: each is sound, public imports come to an
/// end, and no two extensions clash.
pub open spec fn files_sound(files: Seq<FileShapeView>) -> bool {
    &&& forall|i: int| 0 <= i < files.len() ==> file_sound(#[trigger] files[i])
    &&& forall|i: int| 0 <= i < files.len() ==> #[trigger] imports_end(files, i, files.len())
    &&& no_clash(declared_extensions(files, files.len()))
}

/// Whether a pool can work with the files that are read from bytes. Bytes that no files
/// are read from build nothing.
pub open spec fn set_sound(set: Seq<u8>) -> bool {
    files_in(set) matches Some(files) ==> files_sound(files)
}

fn file_is_sound(f: &FileShape) -> (ok: bool)
    ensures
        ok == file_sound(f@),
{
    let known = match &f.syntax {
        None => true,
        Some(s) => same(s.as_str(), "proto2") || same(s.as_str(), "proto3"),
    };
    if !known {
        return false;
    }
    let ghost v = f@;
    assert(v.messages == message_shapes(f.messages@));
    assert(v.extensions == field_shapes(f.extensions@));
    messages_are_sound(f.package.as_str(), &f.messages) && extensions_are_sound(&f.extensions)
}

/// Whether a pool can work with these files.
pub fn files_are_sound(files: &Vec<FileShape>) -> (ok: bool)
    ensures
        ok == files_sound(file_shapes(files@)),
{
    let ghost all = file_shapes(files@);
    let mut extensions: Vec<FieldShape> = Vec::new();
    let mut i: usize = 0;
    assert(field_shapes(extensions@) =~= declared_extensions(all, 0));
    while i < files.len()
        invariant
            i <= files@.len(),
            all == file_shapes(files@),
            forall|k: int| 0 <= k < i ==> file_sound(#[trigger] all[k]),
            field_shapes(extensions@) == declared_extensions(all, i as nat),
        decreases files@.len() - i,
    {
        assert(all[i as int] == files@[i as int]@);
        if !file_is_sound(&files[i]) {
            return false;
        }
        push_fields(&mut extensions, &files[i].extensions);
        push_nested_extensions(&mut extensions, &files[i].messages);
        i += 1;
    }
    all_imports_end(files) && do_not_clash(&extensions)
}

/// Whether a pool can work with the files that are read from bytes.
pub fn set_is_sound(set: &[u8]) -> (ok: bool)
    ensures
        ok == set_sound(set@),
{
    match list_files(set) {
        Some(files) => files_are_sound(&files),
        None => true,
    }
}

} // verus!
