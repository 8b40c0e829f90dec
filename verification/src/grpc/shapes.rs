//! What a set of file descriptors declares.

use vstd::prelude::*;

use crate::text::{opt, texts};

verus! {

/// A field descriptor of `prost_types`.
#[verifier::external_type_specification]
#[verifier::external_body]
pub struct ExFieldDescriptorProto(prost_reflect::prost_types::FieldDescriptorProto);

/// A message descriptor of `prost_types`.
#[verifier::external_type_specification]
#[verifier::external_body]
pub struct ExDescriptorProto(prost_reflect::prost_types::DescriptorProto);

/// A file descriptor of `prost_types`.
#[verifier::external_type_specification]
#[verifier::external_body]
pub struct ExFileDescriptorProto(prost_reflect::prost_types::FileDescriptorProto);

/// What is declared of a field or an extension. The kind and the label are the numbers
/// that descriptors have for them.
#[derive(Debug)]
pub struct FieldShape {
    pub name: String,
    pub number: i32,
    pub kind: i32,
    pub label: i32,
    pub type_ref: String,
    pub extendee: String,
    pub default_value: Option<String>,
}

/// What is declared of a field or an extension, over mathematical values.
pub struct FieldShapeView {
    pub name: Seq<char>,
    pub number: i32,
    pub kind: i32,
    pub label: i32,
    pub type_ref: Seq<char>,
    pub extendee: Seq<char>,
    pub default_value: Option<Seq<char>>,
}

impl View for FieldShape {
    type V = FieldShapeView;

    open spec fn view(&self) -> FieldShapeView {
        FieldShapeView {
            name: self.name@,
            number: self.number,
            kind: self.kind,
            label: self.label,
            type_ref: self.type_ref@,
            extendee: self.extendee@,
            default_value: opt(self.default_value),
        }
    }
}

/// What is declared of a message: whether it is an entry of a map, the parts of the
/// names of its uninterpreted options, and what is in it.
#[derive(Debug)]
pub struct MessageShape {
    pub name: String,
    pub map_entry: bool,
    pub option_names: Vec<Vec<String>>,
    pub fields: Vec<FieldShape>,
    pub extensions: Vec<FieldShape>,
    pub nested: Vec<MessageShape>,
}

/// What is declared of a message, over mathematical values.
pub struct MessageShapeView {
    pub name: Seq<char>,
    pub map_entry: bool,
    pub option_names: Seq<Seq<Seq<char>>>,
    pub fields: Seq<FieldShapeView>,
    pub extensions: Seq<FieldShapeView>,
    pub nested: Seq<MessageShapeView>,
}

/// Fields over mathematical values.
pub open spec fn field_shapes(v: Seq<FieldShape>) -> Seq<FieldShapeView> {
    v.map_values(|f: FieldShape| f@)
}

/// Names in parts over mathematical values.
pub open spec fn name_rows(v: Seq<Vec<String>>) -> Seq<Seq<Seq<char>>> {
    v.map_values(|name: Vec<String>| texts(name@))
}

/// A message that nothing is declared of.
pub open spec fn no_shape() -> MessageShapeView {
    MessageShapeView {
        name: seq![],
        map_entry: false,
        option_names: seq![],
        fields: seq![],
        extensions: seq![],
        nested: seq![],
    }
}

/// A message over mathematical values.
pub open spec fn shape_of(m: MessageShape) -> MessageShapeView
    decreases m,
{
    MessageShapeView {
        name: m.name@,
        map_entry: m.map_entry,
        option_names: name_rows(m.option_names@),
        fields: field_shapes(m.fields@),
        extensions: field_shapes(m.extensions@),
        nested: Seq::new(
            m.nested@.len(),
            |i: int|
                if 0 <= i < m.nested@.len() {
                    shape_of(m.nested@[i])
                } else {
                    no_shape()
                },
        ),
    }
}

impl View for MessageShape {
    type V = MessageShapeView;

    open spec fn view(&self) -> MessageShapeView {
        shape_of(*self)
    }
}

/// Messages over mathematical values.
pub open spec fn message_shapes(v: Seq<MessageShape>) -> Seq<MessageShapeView> {
    v.map_values(|m: MessageShape| m@)
}

/// A message holds the views of what is nested in it.
pub proof fn lemma_nested(m: MessageShape)
    ensures
        m@.nested == message_shapes(m.nested@),
{
    assert(m@.nested =~= message_shapes(m.nested@));
}

/// What a file declares, and which files it imports. Public imports are positions
/// among the imports.
#[derive(Debug)]
pub struct FileShape {
    pub name: String,
    pub package: String,
    pub syntax: Option<String>,
    pub imports: Vec<String>,
    pub public_imports: Vec<i32>,
    pub messages: Vec<MessageShape>,
    pub extensions: Vec<FieldShape>,
}

/// What a file declares, over mathematical values.
pub struct FileShapeView {
    pub name: Seq<char>,
    pub package: Seq<char>,
    pub syntax: Option<Seq<char>>,
    pub imports: Seq<Seq<char>>,
    pub public_imports: Seq<i32>,
    pub messages: Seq<MessageShapeView>,
    pub extensions: Seq<FieldShapeView>,
}

impl View for FileShape {
    type V = FileShapeView;

    open spec fn view(&self) -> FileShapeView {
        FileShapeView {
            name: self.name@,
            package: self.package@,
            syntax: opt(self.syntax),
            imports: texts(self.imports@),
            public_imports: self.public_imports@,
            messages: message_shapes(self.messages@),
            extensions: field_shapes(self.extensions@),
        }
    }
}

/// Files over mathematical values.
pub open spec fn file_shapes(v: Seq<FileShape>) -> Seq<FileShapeView> {
    v.map_values(|f: FileShape| f@)
}

/// The files that `prost_types::FileDescriptorSet` reads from bytes.
pub uninterp spec fn files_in(set: Seq<u8>) -> Option<Seq<FileShapeView>>;

/// Takes a field of `prost_types` over, part for part. Its kind and the name of its
/// type are read by their field numbers.
#[verifier::external_body]
fn import_field(f: prost_reflect::prost_types::FieldDescriptorProto) -> (shape: FieldShape) {
    let parts = prost_reflect::ReflectMessage::transcode_to_dynamic(&f);
    let kind = parts.get_field_by_number(5).and_then(|v| v.as_enum_number());
    let type_ref = parts.get_field_by_number(6).and_then(|v| v.as_str().map(str::to_owned));
    FieldShape {
        number: f.number(),
        kind: kind.unwrap_or_default(),
        label: f.label() as i32,
        name: f.name.unwrap_or_default(),
        type_ref: type_ref.unwrap_or_default(),
        extendee: f.extendee.unwrap_or_default(),
        default_value: f.default_value,
    }
}

/// Takes a message of `prost_types` over, part for part.
#[verifier::external_body]
fn import_message(m: prost_reflect::prost_types::DescriptorProto) -> (shape: MessageShape) {
    let options = m.options.unwrap_or_default();
    let parts = |o: prost_reflect::prost_types::UninterpretedOption|
        o.name.into_iter().map(|part| part.name_part).collect();
    MessageShape {
        name: m.name.unwrap_or_default(),
        map_entry: options.map_entry(),
        option_names: options.uninterpreted_option.into_iter().map(parts).collect(),
        fields: m.field.into_iter().map(import_field).collect(),
        extensions: m.extension.into_iter().map(import_field).collect(),
        nested: m.nested_type.into_iter().map(import_message).collect(),
    }
}

/// Takes a file of `prost_types` over, part for part.
#[verifier::external_body]
fn import_file(f: prost_reflect::prost_types::FileDescriptorProto) -> (shape: FileShape) {
    FileShape {
        name: f.name.unwrap_or_default(),
        package: f.package.unwrap_or_default(),
        syntax: f.syntax,
        imports: f.dependency,
        public_imports: f.public_dependency,
        messages: f.message_type.into_iter().map(import_message).collect(),
        extensions: f.extension.into_iter().map(import_field).collect(),
    }
}

/// `prost_types::FileDescriptorSet` reads bytes as file descriptors, or does not. Only
/// what they declare is taken over.
#[verifier::external_body]
pub(crate) fn list_files(set: &[u8]) -> (files: Option<Vec<FileShape>>)
    ensures
        match files {
            Some(v) => files_in(set@) == Some(file_shapes(v@)),
            None => files_in(set@) is None,
        },
{
    let read = <prost_reflect::prost_types::FileDescriptorSet as prost::Message>::decode(set);
    Some(read.ok()?.file.into_iter().map(import_file).collect())
}

} // verus!
