use mq_bridge::grpc::descriptors::{
    check_dynamic_publisher, decode_dynamic_output, decode_output_json, dynamic_target,
    encode_dynamic_input, method_path, method_shape, plan_dynamic_consumer,
    reflected_descriptor_set, resolve_dynamic_method, DescriptorSource, DynamicMethod,
    ReflectionAnswer,
};
use mq_bridge::grpc::dynamic::{
    acknowledgement_guarantee, after_wait, batch_without_call, call_outcome,
    dynamic_batch_timed_out, dynamic_publisher_status, finish_stream, next_wait, overall_deadline_exceeded, plan_stream,
    response_message, unary_batch, CallEvent, CallResult, DynamicConsumer, StreamEvent, StreamNext,
    StreamWait, POLL_NANOS,
};
use mq_bridge::grpc::status::{GrpcCode, GrpcStatusError};
use mq_bridge::message::{CanonicalMessage, ConsumerError, Metadata, PublisherError, SentBatch};
use mq_bridge::models::GrpcConfig;
use mq_bridge::status::Detail;
use prost_reflect::prost::Message;
use prost_reflect::prost_types::field_descriptor_proto::{Label, Type};
use prost_reflect::prost_types::descriptor_proto::ExtensionRange;
use prost_reflect::prost_types::uninterpreted_option::NamePart;
use prost_reflect::prost_types::{
    DescriptorProto, FieldDescriptorProto, FileDescriptorProto, FileDescriptorSet, MessageOptions,
    MethodDescriptorProto, ServiceDescriptorProto, UninterpretedOption,
};

const SERVICE: &str = "mqbridge.test.v1.DynamicFixture";

fn field(name: &str, number: i32, kind: Type) -> FieldDescriptorProto {
    let mut field = FieldDescriptorProto {
        name: Some(name.to_string()),
        number: Some(number),
        label: Some(Label::Optional as i32),
        ..Default::default()
    };
    field.set_type(kind);
    field
}

fn method(name: &str, client: bool, server: bool) -> MethodDescriptorProto {
    MethodDescriptorProto {
        name: Some(name.to_string()),
        input_type: Some(".mqbridge.test.v1.FixtureRequest".to_string()),
        output_type: Some(".mqbridge.test.v1.FixtureResponse".to_string()),
        client_streaming: Some(client),
        server_streaming: Some(server),
        ..Default::default()
    }
}

fn fixture_file() -> FileDescriptorProto {
    let message = |name: &str, fields: Vec<FieldDescriptorProto>| DescriptorProto {
        name: Some(name.to_string()),
        field: fields,
        ..Default::default()
    };
    FileDescriptorProto {
        name: Some("fixture.proto".to_string()),
        package: Some("mqbridge.test.v1".to_string()),
        syntax: Some("proto3".to_string()),
        message_type: vec![
            message(
                "FixtureRequest",
                vec![field("data", 1, Type::Bytes), field("sequence", 2, Type::Int64)],
            ),
            message(
                "FixtureResponse",
                vec![
                    field("data", 1, Type::Bytes),
                    field("sequence", 2, Type::Int64),
                    field("auth", 3, Type::String),
                ],
            ),
        ],
        service: vec![ServiceDescriptorProto {
            name: Some("DynamicFixture".to_string()),
            method: vec![
                method("Unary", false, false),
                method("Stream", false, true),
                method("ClientStream", true, false),
                method("Bidi", true, true),
            ],
            ..Default::default()
        }],
        ..Default::default()
    }
}

fn descriptor_set() -> Vec<u8> {
    FileDescriptorSet { file: vec![fixture_file()] }.encode_to_vec()
}

fn fixture(name: &str) -> DynamicMethod {
    resolve_dynamic_method(descriptor_set(), SERVICE, name).unwrap()
}

fn config(method: &str, request: Option<&str>) -> GrpcConfig {
    GrpcConfig {
        url: "http://127.0.0.1:1".to_string(),
        service_name: Some(SERVICE.to_string()),
        method_name: Some(method.to_string()),
        descriptor_set_bytes: Some(descriptor_set()),
        request: request.map(str::to_string),
        ..GrpcConfig::default()
    }
}

fn value<'a>(m: &'a Metadata, key: &str) -> Option<&'a str> {
    m.get(key).map(String::as_str)
}

fn err<T, E>(r: Result<T, E>) -> E {
    match r {
        Ok(_) => panic!("expected an error"),
        Err(e) => e,
    }
}

fn failure(e: &PublisherError) -> (&str, bool) {
    match e {
        PublisherError::Retryable(t) => (t, true),
        PublisherError::NonRetryable(t) => (t, false),
    }
}

/// A response with the bytes `hello` and a sequence number below 128.
fn response(sequence: u8) -> Vec<u8> {
    let mut bytes = vec![0x0a, 5];
    bytes.extend_from_slice(b"hello");
    bytes.extend_from_slice(&[0x10, sequence]);
    bytes
}

fn status(code: GrpcCode) -> GrpcStatusError {
    GrpcStatusError {
        code,
        message: "invalid fixture request".to_string(),
        trailing_metadata: Metadata::new(),
    }
}

#[test]
fn methods_are_found_in_the_descriptor_set() {
    let m = fixture("Unary");
    assert_eq!(m.service_name(), SERVICE);
    assert_eq!(m.method_name(), "Unary");
    assert_eq!(method_path(&m), "/mqbridge.test.v1.DynamicFixture/Unary");
    let shapes: Vec<&str> =
        ["Unary", "Stream", "ClientStream", "Bidi"].iter().map(|n| method_shape(&fixture(n))).collect();
    assert_eq!(
        shapes,
        vec!["unary", "server-streaming", "client-streaming", "bidirectional-streaming"]
    );

    assert!(resolve_dynamic_method(vec![0xff], SERVICE, "Unary").is_err());
    let e = err(resolve_dynamic_method(descriptor_set(), "missing.Service", "Unary"));
    assert!(e.contains("service 'missing.Service' not found"));
    let e = err(resolve_dynamic_method(descriptor_set(), SERVICE, "Missing"));
    assert!(e.contains("method") && e.contains("Missing"));
}

const UNSOUND: &str = "gRPC descriptor set is not well-formed";

/// What comes of looking for a method in the fixture with these changes to its file.
fn resolved(change: impl FnOnce(&mut FileDescriptorProto)) -> Result<DynamicMethod, String> {
    let mut file = fixture_file();
    change(&mut file);
    let set = FileDescriptorSet { file: vec![file] }.encode_to_vec();
    resolve_dynamic_method(set, SERVICE, "Unary")
}

/// The request with a map field whose entries have these fields.
fn with_map(file: &mut FileDescriptorProto, entry: Vec<FieldDescriptorProto>) {
    let mut bytes = field("labels", 3, Type::Message).encode_to_vec();
    let name = b".mqbridge.test.v1.FixtureRequest.LabelsEntry";
    bytes.extend_from_slice(&[0x32, name.len() as u8]);
    bytes.extend_from_slice(name);
    let mut labels = FieldDescriptorProto::decode(bytes.as_slice()).unwrap();
    labels.label = Some(Label::Repeated as i32);
    file.message_type[0].field.push(labels);
    file.message_type[0].nested_type.push(DescriptorProto {
        name: Some("LabelsEntry".to_string()),
        field: entry,
        options: Some(MessageOptions { map_entry: Some(true), ..Default::default() }),
        ..Default::default()
    });
}

#[test]
fn map_entries_need_a_key_and_a_value() {
    let value = || field("value", 2, Type::Int32);
    let key = |kind| field("key", 1, kind);
    let m = resolved(|f| with_map(f, vec![key(Type::String), value()])).unwrap();
    let bytes = encode_dynamic_input(&m, br#"{"labels":{"a":7}}"#).unwrap();
    assert_eq!(bytes, vec![0x1a, 5, 0x0a, 1, b'a', 0x10, 7]);
    assert!(resolved(|f| with_map(f, vec![value(), key(Type::Bool)])).is_ok());
    for entry in [
        vec![key(Type::String)],
        vec![value()],
        vec![key(Type::Bytes), value()],
        vec![key(Type::Double), value()],
    ] {
        assert_eq!(err(resolved(|f| with_map(f, entry))), UNSOUND);
    }
    // An option that is not interpreted yet may make a message an entry.
    let late = UninterpretedOption {
        name: vec![NamePart { name_part: "map_entry".to_string(), is_extension: false }],
        identifier_value: Some("true".to_string()),
        ..Default::default()
    };
    let options = MessageOptions { uninterpreted_option: vec![late], ..Default::default() };
    assert_eq!(err(resolved(|f| f.message_type[0].options = Some(options))), UNSOUND);
}

#[test]
fn files_need_a_known_syntax_and_imports_that_end() {
    assert!(resolved(|f| f.syntax = None).is_ok());
    assert_eq!(err(resolved(|f| f.syntax = Some("editions".to_string()))), UNSOUND);
    let circle = |f: &mut FileDescriptorProto| {
        f.dependency = vec!["fixture.proto".to_string()];
        f.public_dependency = vec![0];
    };
    assert_eq!(err(resolved(circle)), UNSOUND);
    let base = FileDescriptorProto {
        name: Some("base.proto".to_string()),
        syntax: Some("proto3".to_string()),
        ..Default::default()
    };
    let mut file = fixture_file();
    file.dependency = vec!["base.proto".to_string()];
    file.public_dependency = vec![0];
    let set = FileDescriptorSet { file: vec![file, base] }.encode_to_vec();
    assert!(resolve_dynamic_method(set, SERVICE, "Unary").is_ok());
}

/// An extension of the message `Open`.
fn extension(name: &str, number: i32, kind: Type) -> FieldDescriptorProto {
    FieldDescriptorProto {
        extendee: Some(".mqbridge.test.v1.Open".to_string()),
        ..field(name, number, kind)
    }
}

fn with_extensions(f: &mut FileDescriptorProto, extensions: Vec<FieldDescriptorProto>) {
    f.syntax = Some("proto2".to_string());
    f.message_type.push(DescriptorProto {
        name: Some("Open".to_string()),
        extension_range: vec![ExtensionRange {
            start: Some(100),
            end: Some(200),
            ..Default::default()
        }],
        ..Default::default()
    });
    f.extension = extensions;
}

#[test]
fn extensions_with_one_number_have_one_form() {
    let other = || extension("b", 101, Type::Bytes);
    assert!(resolved(|f| with_extensions(f, vec![extension("a", 100, Type::Int32), other()])).is_ok());
    let pair = vec![extension("a", 101, Type::Int32), other()];
    assert_eq!(err(resolved(|f| with_extensions(f, pair))), UNSOUND);
    let nested = |f: &mut FileDescriptorProto| {
        with_extensions(f, vec![other()]);
        f.message_type[0].extension.push(extension("c", 101, Type::String));
    };
    assert_eq!(err(resolved(nested)), UNSOUND);
    let named = |number| FieldDescriptorProto {
        extendee: Some(".google.protobuf.MessageOptions".to_string()),
        ..field("mark", number, Type::Int32)
    };
    assert_eq!(err(resolved(|f| f.extension = vec![named(7)])), UNSOUND);
    let e = err(resolved(|f| f.extension = vec![named(5000)]));
    assert_ne!(e, UNSOUND);
}

#[test]
fn defaults_of_bytes_stand_for_bytes() {
    let with_default = |text: &str| {
        let data = FieldDescriptorProto {
            default_value: Some(text.to_string()),
            ..field("data", 1, Type::Bytes)
        };
        resolved(|f| {
            f.syntax = Some("proto2".to_string());
            f.message_type[0].field[0] = data;
        })
    };
    for text in ["", "plain", r"\\400", r"\377\0\x41", r"\x4"] {
        assert!(!matches!(with_default(text), Err(e) if e == UNSOUND), "{text}");
    }
    assert!(with_default(r"\377\0\x41").is_ok());
    for text in [r"\400", r"a\777", "\\x1\u{e9}", "\\x\u{20ac}"] {
        assert_eq!(err(with_default(text)), UNSOUND, "{text}");
    }
}

#[test]
fn options_are_declared_as_they_are() {
    let options_file = |fields: Vec<FieldDescriptorProto>| FileDescriptorProto {
        name: Some("google/protobuf/descriptor.proto".to_string()),
        package: Some("google.protobuf".to_string()),
        message_type: vec![DescriptorProto {
            name: Some("MessageOptions".to_string()),
            field: fields,
            ..Default::default()
        }],
        ..Default::default()
    };
    let with_options = |fields| {
        let set = FileDescriptorSet { file: vec![options_file(fields), fixture_file()] };
        resolve_dynamic_method(set.encode_to_vec(), SERVICE, "Unary")
    };
    assert!(with_options(vec![
        field("deprecated", 3, Type::Bool),
        field("map_entry", 7, Type::Bool),
        field("mine", 4000, Type::String),
    ])
    .is_ok());
    for fields in [
        vec![field("map_entry", 7, Type::String)],
        vec![field("entry", 7, Type::Bool)],
        vec![FieldDescriptorProto {
            label: Some(Label::Repeated as i32),
            ..field("deprecated", 3, Type::Bool)
        }],
    ] {
        assert_eq!(err(with_options(fields)), UNSOUND);
    }
}

#[test]
fn targets_need_a_service_a_method_and_a_source() {
    let c = config("Unary", None);
    let t = dynamic_target(&c).unwrap();
    assert_eq!(t.method_name, "Unary");
    assert!(matches!(t.source, DescriptorSource::Bytes(_)));
    let c = GrpcConfig { descriptor_set_bytes: None, reflection: true, ..config("Unary", None) };
    assert!(matches!(dynamic_target(&c).unwrap().source, DescriptorSource::Reflection));
    let c = GrpcConfig { method_name: None, ..config("Unary", None) };
    assert!(dynamic_target(&c).is_err());
}

#[test]
fn reflected_files_form_a_descriptor_set() {
    let files = vec![fixture_file().encode_to_vec()];
    let set = reflected_descriptor_set(ReflectionAnswer::Files(files), SERVICE).unwrap();
    assert_eq!(set, descriptor_set());
    assert!(resolve_dynamic_method(set, SERVICE, "Unary").is_ok());
    let e = err(reflected_descriptor_set(
        ReflectionAnswer::Error { code: 5, message: "nope".to_string() },
        SERVICE,
    ));
    assert!(e.contains("nope"));
    // What is not known of a file is left out, and what is no file is an error.
    let mut odd = fixture_file().encode_to_vec();
    odd.extend_from_slice(&[0xa8, 0x46, 1]);
    let set = reflected_descriptor_set(ReflectionAnswer::Files(vec![odd]), SERVICE).unwrap();
    assert_eq!(set, descriptor_set());
    let e = err(reflected_descriptor_set(ReflectionAnswer::Files(vec![vec![0xff]]), SERVICE));
    let why = FileDescriptorProto::decode(&[0xffu8][..]).unwrap_err().to_string();
    assert_eq!(e, why);
    assert!(reflected_descriptor_set(ReflectionAnswer::Nothing, SERVICE).is_err());
    assert!(reflected_descriptor_set(ReflectionAnswer::Other, SERVICE).is_err());
}

#[test]
fn inputs_support_methods_with_one_request() {
    let request = Some(r#"{"data":"aGVsbG8=","sequence":"7"}"#);
    for name in ["Unary", "Stream"] {
        let bytes = plan_dynamic_consumer(&config(name, request), &fixture(name)).unwrap();
        assert_eq!(bytes, response(7));
    }
    for (name, shape) in [
        ("ClientStream", "client-streaming"),
        ("Bidi", "bidirectional-streaming"),
    ] {
        let e = err(plan_dynamic_consumer(&config(name, request), &fixture(name)));
        assert!(e.contains(shape), "{e}");
        assert!(e.contains("supports unary and server-streaming"), "{e}");
        assert!(e.contains("use it as the route's output"), "{e}");
    }
    let bad = config("Unary", Some(r#"{"sequence":{"not":"an integer"}}"#));
    assert!(plan_dynamic_consumer(&bad, &fixture("Unary")).is_err());
}

#[test]
fn outputs_support_methods_with_one_response() {
    for name in ["Stream", "Bidi"] {
        let e = err(check_dynamic_publisher(&config(name, None), &fixture(name)));
        assert!(e.contains("use it as the route's input"), "{e}");
    }
    for name in ["Unary", "ClientStream"] {
        assert!(check_dynamic_publisher(&config(name, Some("null")), &fixture(name)).is_ok());
        assert!(check_dynamic_publisher(&config(name, None), &fixture(name)).is_ok());
    }
    // The messages are the requests.
    let e = err(check_dynamic_publisher(&config("Unary", Some("{}")), &fixture("Unary")));
    assert!(e.contains("does not use `request`"), "{e}");
}

#[test]
fn payloads_follow_the_descriptor() {
    let m = fixture("Unary");
    let bytes = encode_dynamic_input(&m, br#"{"data":"aGVsbG8=","sequence":"7"}"#).unwrap();
    assert_eq!(bytes, response(7));
    let e = err(encode_dynamic_input(&m, br#"{"nope":1}"#));
    assert!(!failure(&e).1);

    let json = decode_output_json(&m, &response(7)).unwrap();
    let json: serde_json::Value = serde_json::from_slice(&json).unwrap();
    assert_eq!(json["data"], "aGVsbG8=");
    assert_eq!(json["sequence"], "7");
    let (decoding, why) = err(decode_output_json(&m, &[0xff]));
    assert!(decoding);
    assert!(!why.is_empty());

    let reply = decode_dynamic_output(&m, &response(7), Some(11)).unwrap();
    assert_eq!(reply.message_id, 11);
}

#[test]
fn responses_have_stable_identifiers() {
    let first = DynamicConsumer::new(fixture("Unary")).decode_message(&response(7)).unwrap();
    assert_eq!(value(&first.metadata, "grpc.service"), Some(SERVICE));
    assert_eq!(value(&first.metadata, "grpc.method"), Some("Unary"));
    assert_eq!(value(&first.metadata, "grpc.ack_guarantee"), Some("none"));
    assert_eq!(value(&first.metadata, "grpc.response_index"), Some("0"));
    let second = DynamicConsumer::new(fixture("Unary")).decode_message(&response(7)).unwrap();
    assert_eq!(first.message_id, second.message_id);

    // The same bytes at another position are another message.
    let mut consumer = DynamicConsumer::new(fixture("Stream"));
    let batch = consumer
        .decode_batch(vec![response(7), vec![0xff], response(7)])
        .unwrap();
    assert_eq!(batch.len(), 2);
    assert_eq!(value(&batch[1].metadata, "grpc.response_index"), Some("2"));
    assert_ne!(batch[0].message_id, batch[1].message_id);

    let digest: Vec<u8> = (1..=32).collect();
    let m = response_message("s", "m", 3, &digest, b"{}".to_vec());
    assert_eq!(m.message_id, 0x0102030405060708090a0b0c0d0e0f10);
    assert_eq!(value(&m.metadata, "grpc.response_index"), Some("3"));
}

#[test]
fn waits_respect_both_deadlines() {
    assert_eq!(next_wait(0, 8, None, None), StreamWait::First(None));
    assert_eq!(next_wait(0, 8, Some(5), Some(9)), StreamWait::First(Some(5)));
    assert_eq!(next_wait(0, 8, Some(9), Some(5)), StreamWait::First(Some(5)));
    assert_eq!(next_wait(8, 8, None, None), StreamWait::Full);
    assert_eq!(next_wait(0, 8, None, Some(0)), StreamWait::Expired);
    assert_eq!(
        next_wait(1, 8, None, None),
        StreamWait::More { limit: POLL_NANOS, ends_batch: true }
    );
    assert_eq!(
        next_wait(1, 8, None, Some(1)),
        StreamWait::More { limit: 1, ends_batch: false }
    );

    let first = StreamWait::First(Some(5));
    match after_wait(first, StreamEvent::TimedOut { expired: false }) {
        StreamNext::Fail(ConsumerError::Connection(t)) => assert!(t.contains("idle timeout")),
        other => panic!("unexpected {:?}", other),
    }
    // A whole call that took too long must not be started again.
    match after_wait(first, StreamEvent::TimedOut { expired: true }) {
        StreamNext::Fail(ConsumerError::Permanent(t)) => {
            assert!(t.contains("overall deadline exceeded"));
        }
        other => panic!("unexpected {:?}", other),
    }
    assert!(matches!(overall_deadline_exceeded(), ConsumerError::Permanent(_)));
    assert!(matches!(
        after_wait(first, StreamEvent::Response(vec![1])),
        StreamNext::Keep(_)
    ));
    let more = StreamWait::More { limit: POLL_NANOS, ends_batch: true };
    assert!(matches!(
        after_wait(more, StreamEvent::TimedOut { expired: false }),
        StreamNext::Finish
    ));
}

#[test]
fn calls_are_classified() {
    let m = fixture("Unary");
    let reply = call_outcome(&m, Some(11), CallEvent::Reply(response(1))).unwrap();
    assert_eq!(reply.message_id, 11);
    assert!(failure(&err(call_outcome(&m, None, CallEvent::TimedOut))).1);
    assert!(failure(&err(call_outcome(&m, None, CallEvent::NotReady("x".to_string())))).1);
    let refused = CallEvent::Refused(status(GrpcCode::InvalidArgument));
    assert!(!failure(&err(call_outcome(&m, None, refused))).1);
    assert!(!failure(&dynamic_batch_timed_out()).0.is_empty());
    assert!(batch_without_call(&vec![]).is_some());
    assert!(batch_without_call(&vec![CanonicalMessage::new(vec![], None)]).is_none());
    assert_eq!(acknowledgement_guarantee(&fixture("Unary")), "per-message");
    assert_eq!(acknowledgement_guarantee(&fixture("ClientStream")), "batch");
    let status = dynamic_publisher_status(&fixture("Unary"));
    assert!(status.healthy);
    assert_eq!(status.details[3], ("shape".to_string(), Detail::Text("unary".to_string())));
}

#[test]
fn unary_calls_keep_every_outcome() {
    let message = |id: u128| CanonicalMessage::new(vec![], Some(id));
    let batch = unary_batch(vec![
        CallResult { message: message(1), outcome: Ok(message(1)) },
        CallResult {
            message: message(2),
            outcome: Err(PublisherError::NonRetryable("x".to_string())),
        },
    ]);
    match batch {
        SentBatch::Partial { responses: Some(responses), failed } => {
            assert_eq!(responses[0].message_id, 1);
            assert_eq!(failed[0].0.message_id, 2);
        }
        other => panic!("unexpected {:?}", other),
    }
}

#[test]
fn one_reply_covers_a_streamed_batch() {
    let m = fixture("ClientStream");
    let messages = || {
        vec![
            CanonicalMessage::new(br#"{"data":"","sequence":"3"}"#.to_vec(), Some(7)),
            CanonicalMessage::new(br#"{"nope":1}"#.to_vec(), Some(8)),
            CanonicalMessage::new(br#"{"data":"","sequence":"5"}"#.to_vec(), Some(9)),
        ]
    };
    let plan = plan_stream(&m, messages());
    assert_eq!(plan.encoded, vec![vec![0x10, 3], vec![0x10, 5]]);
    assert_eq!(plan.failed.len(), 1);
    match finish_stream(&m, plan, CallEvent::Reply(response(12))).unwrap() {
        SentBatch::Partial { responses: Some(responses), failed } => {
            assert_eq!(responses.len(), 1);
            assert_eq!(failed.len(), 1);
            assert_eq!(failed[0].0.message_id, 8);
        }
        other => panic!("unexpected {:?}", other),
    }
    // A refused call fails every message that was streamed.
    let plan = plan_stream(&m, messages());
    let refused = CallEvent::Refused(status(GrpcCode::InvalidArgument));
    match finish_stream(&m, plan, refused).unwrap() {
        SentBatch::Partial { failed, .. } => {
            assert_eq!(failed.len(), 3);
            assert!(failed.iter().all(|(_, e)| !failure(e).1));
        }
        other => panic!("unexpected {:?}", other),
    }
}
