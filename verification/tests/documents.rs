use mongodb::bson::oid::ObjectId;
use mongodb::bson::Uuid;
use mq_bridge::message::{CanonicalMessage, MessageDisposition, Metadata, PublisherError, SendResult, Sent, SentBatch};
use mq_bridge::models::{MongoConsume, MongoDbConfig, MongoDbFormat};
use mq_bridge::mongo::bson::{BsonValue, Document};
use mq_bridge::mongo::changes::{
    decode_resume_token, encode_resume_token, event_to_message, op_str, ChangeBatch, ChangeEvent,
    ChangeRead, ChangeStep, MongoDbChangeStreamReader, OperationType, SnapshotBatch,
};
use mq_bridge::mongo::commit::{
    commit_events, commit_failure, commit_page, count_accepted, cursor_update, handle_reply,
    process_mongodb_batch_commit, reply_info, settle, settle_after_delete, settle_after_reply,
    settle_after_unlock, ClaimOutcome, CommitFailure, CommitStep, ReplyInfo, SettleStep,
};
use mq_bridge::mongo::cursor::{checkpoint_update, decode_id, encode_id, read_checkpoint};
use mq_bridge::mongo::document::{
    extract_id_bson, is_wrapped_message, message_to_document, parse_mongodb_document, uuid_bson,
};
use mq_bridge::mongo::filters::{
    available_message_filter, claim_filter, events_filter, full_document_match, ids_filter,
    lock_update, page_filter, parse_receive_query, snapshot_filter, unlock_update,
};
use mq_bridge::mongo::publisher::{
    finish_batch, mongodb_uses_sequencer, namespaced_cursor_id, namespaced_sequencer_id,
    number_documents, read_counter, recover_correlation_id_from_duplicate, sequencer_update,
    tag_outcome,
    CounterOutcome, InsertManyOutcome, InsertOutcome, Lookup, MongoDbPublisher, PollStep,
    ReplyWait, WriteError, DUPLICATE_KEY, OUTCOME_EXISTED, OUTCOME_INSERTED, OUTCOME_KEY,
};
use mq_bridge::mongo::readers::{
    ids_to_claim, is_change_stream_unsupported, process_claimed_documents, start_claim,
    stats_are_fresh, AfterWait, Claiming, EventBatch,
    MongoDbConsumer, MongoDbIdReader, MongoDbSubscriber, PageBatch, ReadEvent, StreamOpening,
    WakeEvent,
};
use mq_bridge::mongo::sending::{
    BatchAction, BatchEvent, BatchStage, MongoSend, StoreAction, StoreEvent, StoreStage,
};
use mq_bridge::status::{Detail, Probe};

fn text(s: &str) -> BsonValue {
    BsonValue::Text(s.to_string())
}

fn doc(fields: Vec<(&str, BsonValue)>) -> Document {
    let mut d = Document::new();
    for (k, v) in fields {
        d.insert(k.to_string(), v);
    }
    d
}

fn sub(fields: Vec<(&str, BsonValue)>) -> BsonValue {
    BsonValue::Document(doc(fields))
}

fn list(values: Vec<BsonValue>) -> BsonValue {
    BsonValue::Array(values)
}

fn value<'a>(m: &'a Metadata, key: &str) -> Option<&'a str> {
    m.get(key).map(String::as_str)
}

fn err<T, E>(r: Result<T, E>) -> E {
    match r {
        Ok(_) => panic!("expected an error"),
        Err(e) => e,
    }
}

fn failure(e: PublisherError) -> (String, bool) {
    match e {
        PublisherError::Retryable(t) => (t, true),
        PublisherError::NonRetryable(t) => (t, false),
    }
}

fn uuid_value(id: &Uuid) -> BsonValue {
    BsonValue::Binary { subtype: 4, bytes: id.bytes().to_vec() }
}

#[test]
fn parse_document_takes_wrapped_fields_and_falls_back_otherwise() {
    let id = Uuid::new();
    // Wrapped: payload is unwrapped and metadata decoded.
    let msg = parse_mongodb_document(doc(vec![
        ("_id", uuid_value(&id)),
        ("payload", text("hello")),
        ("metadata", sub(vec![("kind", text("greeting"))])),
    ]))
    .expect("wrapped document parses");
    assert_eq!(msg.payload, b"hello".to_vec());
    assert_eq!(value(&msg.metadata, "kind"), Some("greeting"));
    assert_eq!(msg.message_id, u128::from_be_bytes(id.bytes()));

    // Foreign document (no `payload`): serialized whole, marked raw.
    let raw = parse_mongodb_document(doc(vec![("_id", BsonValue::Int32(7)), ("name", text("ada"))]))
        .expect("foreign document parses");
    assert_eq!(value(&raw.metadata, "mq_bridge.original_format"), Some("raw"));
    assert!(serde_json::from_slice::<serde_json::Value>(&raw.payload).unwrap()["name"] == "ada");

    // Non-string metadata values still take the raw path, document intact.
    let mixed = parse_mongodb_document(doc(vec![
        ("_id", uuid_value(&id)),
        ("payload", text("x")),
        ("metadata", sub(vec![("n", BsonValue::Int32(1))])),
    ]))
    .expect("mixed-metadata document parses");
    let body: serde_json::Value = serde_json::from_slice(&mixed.payload).unwrap();
    assert_eq!(body["payload"], "x");
}

#[test]
fn resolved_consume_defaults_and_change_stream_alias() {
    // Default: durable queue consumer.
    let cfg = MongoDbConfig::new("mongodb://localhost", "db");
    assert_eq!(cfg.resolved_consume(), MongoConsume::Consumer);
    // Deprecated `change_stream: true` (no `consume`) still maps to the subscriber mode.
    let mut legacy = MongoDbConfig::new("mongodb://localhost", "db");
    legacy.change_stream = true;
    assert_eq!(legacy.resolved_consume(), MongoConsume::Subscriber);
    // Explicit `consume` wins over the deprecated boolean.
    let mut explicit = MongoDbConfig::new("mongodb://localhost", "db");
    explicit.change_stream = true;
    explicit.consume = Some(MongoConsume::CaptureAll);
    assert_eq!(explicit.resolved_consume(), MongoConsume::CaptureAll);
}

#[test]
fn full_document_match_prefixes_fields_and_preserves_operators() {
    // Plain field predicates (incl. field-level operators and dotted paths) get the
    // `fullDocument.` prefix; the operator value is left untouched.
    assert_eq!(
        full_document_match(&doc(vec![
            ("type", text("notification")),
            ("n", sub(vec![("$gt", BsonValue::Int32(5))])),
        ])),
        doc(vec![
            ("fullDocument.type", text("notification")),
            ("fullDocument.n", sub(vec![("$gt", BsonValue::Int32(5))])),
        ])
    );
    assert_eq!(
        full_document_match(&doc(vec![("address.city", text("NYC"))])),
        doc(vec![("fullDocument.address.city", text("NYC"))])
    );
    // Top-level logical operators are preserved and their nested predicates rewritten.
    assert_eq!(
        full_document_match(&doc(vec![(
            "$or",
            list(vec![
                sub(vec![("a", BsonValue::Int32(1))]),
                sub(vec![("b", BsonValue::Int32(2))]),
            ])
        )])),
        doc(vec![(
            "$or",
            list(vec![
                sub(vec![("fullDocument.a", BsonValue::Int32(1))]),
                sub(vec![("fullDocument.b", BsonValue::Int32(2))]),
            ])
        )])
    );
}

#[test]
fn resumable_encode_decode_roundtrips_supported_types() {
    let oid = BsonValue::ObjectId(ObjectId::new().bytes());
    let uuid = Uuid::new();
    let cases = [oid, uuid_value(&uuid), BsonValue::Int64(123), text("k1")];
    for id in cases {
        let encoded = encode_id(&id).expect("supported type encodes");
        assert_eq!(decode_id(&encoded), Some(id), "roundtrip for {}", encoded);
    }
    // Int32 encodes as an int and decodes back as Int64 (BSON `$gt` compares numerically).
    assert_eq!(encode_id(&BsonValue::Int32(7)).as_deref(), Some("int:7"));
    // Unsupported types are not persisted.
    assert_eq!(encode_id(&BsonValue::Boolean(true)), None);
    assert_eq!(decode_id("bogus"), None);
}

#[test]
fn resume_token_encode_decode_roundtrips() {
    // A resume token is an opaque `{ "_data": <hex string> }` document; build one directly.
    let token = doc(vec![("_data", text("826553F1A0000000012B02"))]);

    let encoded = encode_resume_token(&token).expect("token encodes");
    let decoded = match decode_resume_token(&encoded).expect("token decodes") {
        BsonValue::Document(d) => d,
        other => panic!("unexpected {:?}", other),
    };
    // Re-encoding the decoded token yields the same string (stable round-trip).
    assert_eq!(encode_resume_token(&decoded).unwrap(), encoded);
    // A malformed value decodes to None so the reader restarts cleanly instead of failing.
    assert!(decode_resume_token("not-json").is_none());
}

#[test]
fn message_to_document_strips_source_metadata_but_keeps_user_keys() {
    let mut msg = CanonicalMessage::new(b"hello".to_vec(), None);
    msg.metadata.insert("kind".to_string(), "order".to_string());
    msg.metadata.insert("mqb.src.kafka_offset".to_string(), "42".to_string());

    let d = message_to_document(&msg, &MongoDbFormat::Text, None, 0).unwrap();
    let metadata = match d.get("metadata") {
        Some(BsonValue::Document(m)) => m,
        other => panic!("unexpected {:?}", other),
    };

    assert_eq!(metadata.get("kind"), Some(&text("order")));
    assert!(
        !metadata.contains_key("mqb.src.kafka_offset"),
        "source/provenance keys must not be persisted to the document"
    );
}

#[test]
fn message_to_document_id_field_sets_typed_id() {
    let msg = CanonicalMessage::new(br#"{"order_id":"A-1","qty":3}"#.to_vec(), None);
    let d = message_to_document(&msg, &MongoDbFormat::Json, Some("order_id"), 0).unwrap();
    assert_eq!(d.get("_id"), Some(&text("A-1")));

    // Numeric key keeps its BSON integer type.
    let msg = CanonicalMessage::new(br#"{"order_id":42}"#.to_vec(), None);
    let d = message_to_document(&msg, &MongoDbFormat::Json, Some("order_id"), 0).unwrap();
    assert_eq!(d.get_i64("_id").unwrap(), 42);
}

#[test]
fn message_to_document_id_field_overrides_raw_id() {
    // Raw inserts the payload verbatim; id_field still wins.
    let msg = CanonicalMessage::new(br#"{"order_id":"A-1","_id":"ignored"}"#.to_vec(), None);
    let d = message_to_document(&msg, &MongoDbFormat::Raw, Some("order_id"), 0).unwrap();
    assert_eq!(d.get("_id"), Some(&text("A-1")));
}

#[test]
fn message_to_document_id_field_missing_or_non_json_errors() {
    for payload in [&br#"{"other":1}"#[..], b"not json", br#"{"order_id":null}"#] {
        let msg = CanonicalMessage::new(payload.to_vec(), None);
        assert!(message_to_document(&msg, &MongoDbFormat::Json, Some("order_id"), 0).is_err());
    }
}

#[test]
fn extract_id_bson_rejects_array_id() {
    // An array is not a valid MongoDB `_id`.
    assert!(extract_id_bson(br#"{"order_id":[1,2]}"#, "order_id").is_err());
}

#[test]
fn tag_outcome_off_returns_ack() {
    let msg = CanonicalMessage::new(b"x".to_vec(), None);
    assert!(matches!(tag_outcome(false, msg, OUTCOME_INSERTED), Sent::Ack));
}

#[test]
fn tag_outcome_on_returns_tagged_response() {
    for outcome in [OUTCOME_INSERTED, OUTCOME_EXISTED] {
        let msg = CanonicalMessage::new(b"x".to_vec(), None);
        let id = msg.message_id;
        match tag_outcome(true, msg, outcome) {
            Sent::Response(m) => {
                assert_eq!(m.message_id, id);
                assert_eq!(value(&m.metadata, OUTCOME_KEY), Some(outcome));
            }
            other => panic!("expected Response, got {:?}", other),
        }
    }
}

#[test]
fn wrapped_messages_read_back_in_every_format() {
    for format in [MongoDbFormat::Normal, MongoDbFormat::Json, MongoDbFormat::Text] {
        let msg = CanonicalMessage::new(br#"{"a":1}"#.to_vec(), Some(77))
            .with_metadata_kv("kind", "order");
        let d = message_to_document(&msg, &format, None, 1_700_000_000_000).unwrap();
        assert!(is_wrapped_message(&d));
        assert_eq!(d.get("_id"), Some(&uuid_bson(77)));
        let back = parse_mongodb_document(d).unwrap();
        assert_eq!(back.message_id, 77);
        assert_eq!(back.payload, br#"{"a":1}"#.to_vec());
        assert_eq!(value(&back.metadata, "kind"), Some("order"));
    }
}

#[test]
fn documents_by_format() {
    let msg = CanonicalMessage::new(br#"{"a":1}"#.to_vec(), Some(1));
    let payload = |format: &MongoDbFormat| {
        message_to_document(&msg, format, None, 0).unwrap().get("payload").unwrap().copy()
    };
    assert_eq!(
        payload(&MongoDbFormat::Normal),
        BsonValue::Binary { subtype: 0, bytes: br#"{"a":1}"#.to_vec() }
    );
    assert_eq!(payload(&MongoDbFormat::Json), sub(vec![("a", BsonValue::Int64(1))]));
    assert_eq!(payload(&MongoDbFormat::Text), text(r#"{"a":1}"#));
    // A raw document is the payload itself.
    let raw = message_to_document(&msg, &MongoDbFormat::Raw, None, 0).unwrap();
    assert!(!raw.contains_key("payload"));
    assert!(raw.contains_key("a"));
}

#[test]
fn identifier_errors_say_why() {
    assert_eq!(
        err(extract_id_bson(b"not json", "k")),
        "id_field 'k' requires a JSON payload"
    );
    assert_eq!(err(extract_id_bson(b"{}", "k")), "id_field 'k' not found in payload");
    assert_eq!(err(extract_id_bson(br#"{"k":null}"#, "k")), "id_field 'k' resolved to null");
    assert_eq!(
        err(extract_id_bson(br#"{"k":[1]}"#, "k")),
        "id_field 'k' resolved to an array, which is not a valid _id"
    );
    assert_eq!(extract_id_bson(br#"{"k":7}"#, "k").unwrap(), BsonValue::Int64(7));
}

#[test]
fn cursor_texts() {
    assert_eq!(encode_id(&text("a:b")).as_deref(), Some("str:a:b"));
    assert_eq!(decode_id("str:a:b"), Some(text("a:b")));
    assert_eq!(
        encode_id(&BsonValue::ObjectId([0, 0, 0, 0, 0, 0, 0, 0, 0, 0, 0x0a, 0xbc])).as_deref(),
        Some("oid:000000000000000000000abc")
    );
    assert_eq!(
        decode_id("oid:0102030405060708090A0b0c"),
        Some(BsonValue::ObjectId([1, 2, 3, 4, 5, 6, 7, 8, 9, 10, 11, 12]))
    );
    assert_eq!(decode_id("oid:xyz"), None);
    assert_eq!(
        encode_id(&uuid_bson(1)).as_deref(),
        Some("uuid:00000000-0000-0000-0000-000000000001")
    );
    assert_eq!(decode_id("uuid:00000000-0000-0000-0000-000000000001"), Some(uuid_bson(1)));
    assert_eq!(decode_id("int:x"), None);
    assert_eq!(decode_id("int:-5"), Some(BsonValue::Int64(-5)));
}

#[test]
fn values_of_other_kinds_survive() {
    let d = parse_receive_query(&Some(r#"{"x":{"$numberDouble":"1.5"},"y":2}"#.to_string()))
        .unwrap()
        .unwrap();
    assert!(matches!(d.get("x"), Some(BsonValue::Other(_))));
    let copy = d.copy();
    assert_eq!(copy, d);
    assert_eq!(parse_receive_query(&None).unwrap(), None);
    assert_eq!(
        err(parse_receive_query(&Some("not json".to_string()))),
        "Failed to parse 'receive_query' from configuration as a JSON document"
    );
}

#[test]
fn fields_are_replaced_in_place() {
    let mut d = doc(vec![("a", BsonValue::Int32(1)), ("b", BsonValue::Null)]);
    d.insert("a".to_string(), BsonValue::Int64(2));
    assert_eq!(d, doc(vec![("a", BsonValue::Int64(2)), ("b", BsonValue::Null)]));
    assert_eq!(d.get_i64("a"), Ok(2));
    assert_eq!(d.get_i64("b"), Err("field does not have the expected type"));
    assert_eq!(d.get_i64("c"), Err("field is not present"));
    assert!(!d.is_empty());
    assert!(Document::new().is_empty());
}

#[test]
fn claims_look_for_unlocked_messages() {
    let free = available_message_filter(100);
    let absent = || sub(vec![("$exists", BsonValue::Boolean(false))]);
    assert_eq!(
        free,
        doc(vec![(
            "$and",
            list(vec![
                sub(vec![(
                    "$or",
                    list(vec![
                        sub(vec![("locked_until", absent())]),
                        sub(vec![("locked_until", BsonValue::Null)]),
                        sub(vec![(
                            "locked_until",
                            sub(vec![("$lt", BsonValue::Int64(100))])
                        )]),
                    ])
                )]),
                sub(vec![("seq_counter", absent())]),
                sub(vec![("last_seq", absent())]),
            ])
        )])
    );
    assert_eq!(claim_filter(100, &None), free);
    let extra = Some(doc(vec![("type", text("x"))]));
    match claim_filter(100, &extra).get("$and") {
        Some(BsonValue::Array(both)) => assert_eq!(both.len(), 2),
        other => panic!("unexpected {:?}", other),
    }
    // A claim holds for a minute.
    assert_eq!(
        lock_update(100),
        doc(vec![("$set", sub(vec![("locked_until", BsonValue::Int64(160))]))])
    );
    assert_eq!(
        unlock_update(),
        doc(vec![("$set", sub(vec![("locked_until", BsonValue::Null)]))])
    );
    assert_eq!(
        ids_filter(&vec![BsonValue::Int32(1), text("b")]),
        doc(vec![("_id", sub(vec![("$in", list(vec![BsonValue::Int32(1), text("b")]))]))])
    );
    assert_eq!(
        page_filter(&Some(BsonValue::Int64(5)), &None),
        doc(vec![("_id", sub(vec![("$gt", BsonValue::Int64(5))]))])
    );
    assert_eq!(page_filter(&None, &None), Document::new());
    assert!(events_filter(9, &None).contains_key("seq"));
}

fn config() -> MongoDbConfig {
    let mut c = MongoDbConfig::new("mongodb://localhost", "db");
    c.collection = Some("orders".to_string());
    c
}

#[test]
fn publishers_are_set_up_from_their_configuration() {
    let (p, setup) = MongoDbPublisher::new(&config()).unwrap();
    assert_eq!(p.collection_name, "orders");
    assert_eq!(p.reply_collection(), "orders_replies");
    assert_eq!(p.request_timeout_ms, 30_000);
    assert!(p.uses_sequencer());
    assert!(setup.seq_index);
    let nameless = MongoDbConfig::new("mongodb://localhost", "db");
    assert_eq!(
        err(MongoDbPublisher::new(&nameless)),
        "Collection name is required for MongoDB publisher"
    );
    assert!(mongodb_uses_sequencer(false, &MongoDbFormat::Json));
    assert!(!mongodb_uses_sequencer(true, &MongoDbFormat::Json));
    assert!(!mongodb_uses_sequencer(false, &MongoDbFormat::Raw));
    assert_eq!(namespaced_cursor_id("orders", "c"), "orders:cursor:c");
    assert!(namespaced_sequencer_id("orders").starts_with("orders"));
}

#[test]
fn inserts_are_accepted_once() {
    let mut c = config();
    c.report_outcome = true;
    let (p, _) = MongoDbPublisher::new(&c).unwrap();
    let message = || CanonicalMessage::new(b"x".to_vec(), Some(3));
    let tag = |sent: Result<Sent, PublisherError>| match sent {
        Ok(Sent::Response(m)) => value(&m.metadata, OUTCOME_KEY).unwrap().to_string(),
        other => panic!("unexpected {:?}", other),
    };
    assert_eq!(tag(p.on_insert(message(), InsertOutcome::Done)), OUTCOME_INSERTED);
    let duplicate = InsertOutcome::Refused { code: DUPLICATE_KEY, why: "dup".to_string() };
    assert_eq!(tag(p.on_insert(message(), duplicate)), OUTCOME_EXISTED);
    let refused = InsertOutcome::Refused { code: 121, why: "bad".to_string() };
    let (why, _) = failure(err(p.on_insert(message(), refused)));
    assert!(!why.is_empty());
    assert!(failure(err(p.on_insert(message(), InsertOutcome::Failed("down".to_string())))).1);
}

#[test]
fn requests_carry_where_the_reply_goes() {
    let (p, _) = MongoDbPublisher::new(&config()).unwrap();
    let (m, correlation) = p.start_request(CanonicalMessage::new(b"x".to_vec(), Some(3)));
    assert_eq!(value(&m.metadata, "correlation_id"), Some(correlation.as_str()));
    assert_eq!((correlation.len(), correlation.as_bytes()[14]), (36, b'7'));
    assert_eq!(value(&m.metadata, "reply_to"), Some("orders_replies"));
    let info = reply_info(&m);
    assert_eq!(info.reply_to.as_deref(), Some("orders_replies"));
    assert_eq!(info.correlation_id.as_deref(), Some(correlation.as_str()));
    let (to, d) = handle_reply(&info, CanonicalMessage::new(b"pong".to_vec(), None), 5).unwrap();
    assert_eq!(to, "orders_replies");
    assert!(is_wrapped_message(&d));
    let nobody = reply_info(&CanonicalMessage::new(vec![], None));
    assert!(handle_reply(&nobody, CanonicalMessage::new(vec![], None), 5).is_none());
}

#[test]
fn waiting_for_a_reply_slows_down() {
    let mut wait = ReplyWait { timeout: 100, sleep: 200_000_000 };
    assert!(wait.expired(100).is_none());
    assert_eq!(
        failure(wait.expired(101).unwrap()),
        ("Request timed out waiting for MongoDB response".to_string(), false)
    );
    let mut sleeps = Vec::new();
    for _ in 0..4 {
        match wait.on_look(Lookup::NotFound) {
            PollStep::Sleep(n) => sleeps.push(n),
            other => panic!("unexpected {:?}", other),
        }
    }
    assert_eq!(sleeps, vec![200_000_000, 300_000_000, 450_000_000, 500_000_000]);
    let d = message_to_document(
        &CanonicalMessage::new(b"pong".to_vec(), Some(9)),
        &MongoDbFormat::Normal,
        None,
        0,
    )
    .unwrap();
    match wait.on_look(Lookup::Found(d)) {
        PollStep::Reply(Ok(Sent::Response(m))) => assert_eq!(m.payload, b"pong".to_vec()),
        other => panic!("unexpected {:?}", other),
    }
}

#[test]
fn duplicate_requests_take_the_earlier_correlation() {
    let earlier = CanonicalMessage::new(vec![], Some(1)).with_metadata_kv("correlation_id", "c0");
    let d = message_to_document(&earlier, &MongoDbFormat::Normal, None, 0).unwrap();
    let now = || CanonicalMessage::new(vec![], Some(1)).with_metadata_kv("correlation_id", "c1");
    let m = recover_correlation_id_from_duplicate(now(), Lookup::Found(d)).unwrap();
    assert_eq!(value(&m.metadata, "correlation_id"), Some("c0"));
    let e = err(recover_correlation_id_from_duplicate(now(), Lookup::NotFound));
    assert_eq!(failure(e).0, "Duplicate key error but document not found");
    let e = err(recover_correlation_id_from_duplicate(now(), Lookup::Failed("x".to_string())));
    assert_eq!(failure(e).0, "Failed to fetch existing document: x");
}

#[test]
fn sequence_numbers_end_at_the_counter() {
    let d = doc(vec![("seq_counter", BsonValue::Int64(12))]);
    assert_eq!(read_counter(CounterOutcome::Document(d)).unwrap(), 12);
    assert_eq!(
        failure(err(read_counter(CounterOutcome::NotReturned))).0,
        "Sequencer document not returned after upsert"
    );
    assert!(read_counter(CounterOutcome::Failed("x".to_string())).is_err());
    assert!(read_counter(CounterOutcome::Document(Document::new())).is_err());
    let docs = number_documents(vec![Document::new(), Document::new()], 12);
    assert_eq!(docs[0].get_i64("seq"), Ok(11));
    assert_eq!(docs[1].get_i64("seq"), Ok(12));
}

#[test]
fn batches_account_for_every_message() {
    let mut c = config();
    c.id_field = Some("id".to_string());
    let (p, _) = MongoDbPublisher::new(&c).unwrap();
    let plan = || {
        p.plan_batch(
            vec![
                CanonicalMessage::new(br#"{"id":1}"#.to_vec(), Some(1)),
                CanonicalMessage::new(b"not json".to_vec(), Some(2)),
                CanonicalMessage::new(br#"{"id":3}"#.to_vec(), Some(3)),
                CanonicalMessage::new(br#"{"id":4}"#.to_vec(), Some(4)),
            ],
            0,
        )
    };
    assert_eq!(plan().docs.len(), 3);
    assert_eq!(plan().failed.len(), 1);
    let failed_ids = |outcome: InsertManyOutcome| match finish_batch(plan(), outcome).unwrap() {
        SentBatch::Partial { failed, .. } => {
            let mut ids: Vec<u128> = failed.iter().map(|(m, _)| m.message_id).collect();
            ids.sort();
            ids
        }
        SentBatch::Ack => Vec::new(),
    };
    assert_eq!(failed_ids(InsertManyOutcome::Done), vec![2]);
    // A refused document is reported, and so is what an ordered insert skipped behind it.
    let refused = InsertManyOutcome::Refused {
        errors: vec![WriteError { index: 1, code: 121, text: "bad".to_string() }],
        write_concern: false,
    };
    let ids = failed_ids(refused);
    assert!(ids.contains(&2) && ids.contains(&3));
}

#[test]
fn claims_are_settled_once() {
    let ids = vec![BsonValue::Int32(1), BsonValue::Int32(2), BsonValue::Int32(3)];
    let plan = process_mongodb_batch_commit(
        &ids,
        &vec![
            ClaimOutcome::Done,
            ClaimOutcome::Refused,
            ClaimOutcome::ReplyFailed("x".to_string()),
        ],
    );
    assert_eq!(plan.delete, vec![BsonValue::Int32(1)]);
    assert_eq!(plan.unlock, vec![BsonValue::Int32(2), BsonValue::Int32(3)]);
    assert_eq!(plan.errors, vec!["x".to_string()]);
    // What was refused is given free first, and lost replies are reported at the end.
    assert!(matches!(plan.start(), CommitStep::Unlock));
    assert!(matches!(plan.after_unlock(None), CommitStep::Delete));
    match plan.after_delete(None) {
        CommitStep::Finished(Err(e)) => assert_eq!(e, "Errors occurred during commit: [x]"),
        other => panic!("unexpected {:?}", other),
    }
    match plan.after_unlock(Some("down".to_string())) {
        CommitStep::Finished(Err(e)) => {
            assert_eq!(e, "Failed to unlock Nacked MongoDB messages: down");
        }
        other => panic!("unexpected {:?}", other),
    }
    assert_eq!(
        commit_failure(CommitFailure::InsertReply("x".to_string())),
        "Failed to insert MongoDB reply: x"
    );
}

#[test]
fn cursors_stop_before_what_was_not_accepted() {
    let ack = || MessageDisposition::Ack;
    let nack = || MessageDisposition::Nack;
    assert_eq!(count_accepted(&vec![ack(), nack(), ack()], 3), 1);
    let commit = commit_events(&vec![5, 6, 7], 4, &vec![ack(), nack(), ack()]);
    assert_eq!(commit.persist, Some(5));
    assert_eq!(commit.rewind, Some(5));
    let commit = commit_events(&vec![5, 6], 4, &vec![ack(), ack()]);
    assert_eq!((commit.persist, commit.rewind), (Some(6), None));
    let commit = commit_events(&vec![5], 4, &vec![nack()]);
    assert_eq!((commit.persist, commit.rewind), (None, Some(4)));

    let ids = vec![BsonValue::Int64(5), BsonValue::Int64(6)];
    let commit = commit_page(&ids, &Some(BsonValue::Int64(4)), &vec![ack(), nack()]);
    assert_eq!(commit.persist.as_deref(), Some("int:5"));
    assert_eq!(commit.rewind, Some(Some(BsonValue::Int64(5))));
    assert_eq!(commit.acked, 1);

    let (filter, update) = cursor_update("orders", "c", 9);
    assert_eq!(filter.get("_id"), Some(&text("orders:cursor:c")));
    assert!(!update.is_empty());
}

#[test]
fn consumers_fall_back_to_polling() {
    assert!(is_change_stream_unsupported(Some(40573)));
    assert!(!is_change_stream_unsupported(Some(1)));
    assert!(!is_change_stream_unsupported(None));
    let c = MongoDbConsumer::new(&config(), StreamOpening::Opened).unwrap();
    assert!(c.has_change_stream);
    let plain = StreamOpening::Failed { code: Some(40573), why: "no".to_string() };
    let c = MongoDbConsumer::new(&config(), plain).unwrap();
    assert!(!c.has_change_stream);
    let broken = StreamOpening::Failed { code: None, why: "down".to_string() };
    assert!(MongoDbConsumer::new(&config(), broken).is_err());
    assert!(matches!(c.after_wait(WakeEvent::TimedOut, true), AfterWait::EmptyBatch | AfterWait::ClaimAgain));
    assert!(matches!(c.after_wait(WakeEvent::Ended, true), AfterWait::Fail(_)));
}

#[test]
fn claimed_documents_become_messages() {
    let m = CanonicalMessage::new(b"x".to_vec(), Some(4)).with_metadata_kv("reply_to", "r");
    let d = message_to_document(&m, &MongoDbFormat::Normal, None, 0).unwrap();
    assert_eq!(ids_to_claim(&vec![d.copy(), Document::new()]), vec![uuid_bson(4)]);
    let claimed = process_claimed_documents(vec![d]).unwrap();
    assert_eq!(claimed.messages.len(), 1);
    assert_eq!(claimed.ids, vec![uuid_bson(4)]);
    assert_eq!(claimed.replies[0].reply_to.as_deref(), Some("r"));
    assert_eq!(err(process_claimed_documents(vec![Document::new()])), "Document missing _id");
}

#[test]
fn subscribers_follow_the_sequence() {
    let mut s = MongoDbSubscriber::new(&config(), false, None, Some(doc(vec![(
        "seq_counter",
        BsonValue::Int64(8),
    )])))
    .unwrap();
    assert_eq!(s.last_seq, 8);
    let d = message_to_document(
        &CanonicalMessage::new(b"x".to_vec(), Some(4)),
        &MongoDbFormat::Normal,
        None,
        0,
    )
    .unwrap()
    .with("seq", BsonValue::Int64(9));
    let mut batch = EventBatch { messages: vec![], seqs: vec![] };
    s.on_read(&mut batch, ReadEvent::Document(d)).unwrap();
    assert_eq!(batch.seqs, vec![9]);
    assert_eq!(s.last_seq, 9);
    // A failed read is skipped behind a message, and reported before the first.
    assert!(s.on_read(&mut batch, ReadEvent::Failed("x".to_string())).is_ok());
    let mut none = EventBatch { messages: vec![], seqs: vec![] };
    assert!(s.on_read(&mut none, ReadEvent::Failed("x".to_string())).is_err());

    assert!(err(MongoDbSubscriber::new(&config(), true, None, None))
        .contains("no seq field in collection 'orders'"));
    let mut raw = config();
    raw.format = MongoDbFormat::Raw;
    assert!(MongoDbSubscriber::new(&raw, false, None, None).is_err());
}

#[test]
fn pages_advance_by_identifier() {
    let mut c = config();
    // Without a cursor nothing is resumed.
    assert_eq!(MongoDbIdReader::new(&c, Some("int:3")).unwrap().last_id, None);
    c.cursor_id = Some("c".to_string());
    assert_eq!(MongoDbIdReader::new(&c, Some("bogus")).unwrap().last_id, None);
    let mut r = MongoDbIdReader::new(&c, Some("int:3")).unwrap();
    assert_eq!(r.last_id, Some(BsonValue::Int64(3)));
    let mut page = PageBatch { messages: vec![], ids: vec![], seen: 0 };
    r.on_document(&mut page, doc(vec![("_id", BsonValue::Int64(4)), ("a", text("b"))]));
    assert_eq!(page.ids, vec![BsonValue::Int64(4)]);
    assert_eq!(page.seen, 1);
    assert_eq!(r.last_id, Some(BsonValue::Int64(4)));
    assert!(r.page_ends_batch(&page));
}

#[test]
fn change_events_become_messages() {
    assert_eq!(op_str(OperationType::Insert), "insert");
    assert_eq!(op_str(OperationType::Delete), "delete");
    let event = ChangeEvent {
        operation: OperationType::Update,
        full_document: Some(doc(vec![("_id", BsonValue::Int64(1)), ("a", text("b"))])),
        document_key: Some(doc(vec![("_id", BsonValue::Int64(1))])),
    };
    let m = event_to_message(&event).unwrap();
    assert_eq!(value(&m.metadata, "mongodb.operation"), Some("update"));
    let other =
        ChangeEvent { operation: OperationType::Other, full_document: None, document_key: None };
    assert!(event_to_message(&other).is_none());

    let token = || doc(vec![("_data", text("01"))]);
    let mut batch = ChangeBatch { messages: vec![], tokens: vec![] };
    let step = batch.on_read(ChangeRead::Event { event, token: token() }, 2);
    assert!(matches!(step, ChangeStep::More));
    assert_eq!(batch.messages.len(), 1);
    assert!(matches!(batch.on_read(ChangeRead::Idle, 2), ChangeStep::Finish));
    assert!(matches!(
        ChangeBatch { messages: vec![], tokens: vec![] }.on_read(ChangeRead::Ended, 2),
        ChangeStep::Fail(_)
    ));
}

#[test]
fn change_readers_keep_no_position_behind_a_gap() {
    let mut c = config();
    c.cursor_id = Some("c".to_string());
    let (mut r, start) = MongoDbChangeStreamReader::new(&c, None, true).unwrap();
    assert!(start.take_snapshot);
    assert_eq!(r.phase(), "snapshot");
    let mut snapshot = SnapshotBatch { messages: vec![], ids: vec![] };
    r.on_snapshot_document(&mut snapshot, doc(vec![("_id", BsonValue::Int64(1))]));
    assert_eq!(value(&snapshot.messages[0].metadata, "mongodb.snapshot"), Some("true"));
    r.start_streaming();
    assert_eq!(r.phase(), "streaming");

    let token = |n: &str| doc(vec![("_data", text(n))]);
    r.hand_out();
    let tokens = vec![token("01"), token("02")];
    let saved = r
        .commit_changes(&tokens, &vec![MessageDisposition::Ack, MessageDisposition::Nack])
        .unwrap();
    assert_eq!(saved, encode_resume_token(&token("01")).unwrap());
    r.on_saved(saved);
    // Nothing may be kept any more: the refused event would be skipped.
    r.hand_out();
    assert_eq!(r.commit_changes(&vec![token("03")], &vec![MessageDisposition::Ack]), None);
    assert_eq!(r.refresh_idle_checkpoint(Some(&token("04"))), None);

    let (r, start) = MongoDbChangeStreamReader::new(
        &c,
        Some(&encode_resume_token(&token("05")).unwrap()),
        true,
    )
    .unwrap();
    assert!(!start.take_snapshot);
    assert!(start.resume.is_some());
    assert!(r.has_checkpoint());
}

#[test]
fn single_claims_are_settled() {
    let info = ReplyInfo {
        reply_to: Some("r".to_string()),
        correlation_id: Some("c".to_string()),
    };
    let nobody = ReplyInfo { reply_to: None, correlation_id: None };
    let reply = || MessageDisposition::Reply(CanonicalMessage::new(b"pong".to_vec(), None));
    assert!(matches!(settle(&info, MessageDisposition::Ack, 0), SettleStep::Delete));
    assert!(matches!(settle(&info, MessageDisposition::Nack, 0), SettleStep::Unlock));
    assert!(matches!(settle(&nobody, reply(), 0), SettleStep::Delete));
    match settle(&info, reply(), 0) {
        SettleStep::StoreReply(to, d) => {
            assert_eq!(to, "r");
            let stored = parse_mongodb_document(d).unwrap();
            assert_eq!(value(&stored.metadata, "correlation_id"), Some("c"));
        }
        other => panic!("unexpected {:?}", other),
    }
    assert!(matches!(settle_after_reply(None), SettleStep::Delete));
    assert!(matches!(settle_after_reply(Some("x".to_string())), SettleStep::Finished(Err(_))));
    assert!(settle_after_unlock(None).is_ok());
    assert_eq!(
        err(settle_after_delete(Some("x".to_string()))),
        "Failed to ack/delete MongoDB message: x"
    );
}

#[test]
fn checkpoints_read_back() {
    let (filter, update) = checkpoint_update("orders:c", "int:5");
    assert_eq!(filter, doc(vec![("_id", text("orders:c"))]));
    let written = match update.get("$set") {
        Some(BsonValue::Document(d)) => d.copy(),
        other => panic!("unexpected {:?}", other),
    };
    assert_eq!(read_checkpoint(&Some(written)).as_deref(), Some("int:5"));
    assert_eq!(read_checkpoint(&None), None);
    assert_eq!(read_checkpoint(&Some(Document::new())), None);
}

#[test]
fn claims_lock_what_still_matches() {
    assert!(start_claim(0, 5, &None).is_none());
    let base = start_claim(3, 5, &None).unwrap();
    let nothing = Claiming::new(vec![], base.copy(), 5);
    assert!(nothing.next_lock().is_none() && nothing.claimed.is_empty());
    let mut claiming = Claiming::new(vec![uuid_bson(4), uuid_bson(5)], base, 5);
    let (filter, update) = claiming.next_lock().unwrap();
    assert_eq!(filter.get("_id"), Some(&sub(vec![("$in", list(vec![uuid_bson(4)]))])));
    assert!(filter.contains_key("$and"));
    assert_eq!(update, lock_update(5));
    claiming.on_lock(Some(doc(vec![("_id", uuid_bson(4))])));
    let (filter, _) = claiming.next_lock().unwrap();
    assert_eq!(filter.get("_id"), Some(&sub(vec![("$in", list(vec![uuid_bson(5)]))])));
    // Another consumer was faster.
    claiming.on_lock(None);
    assert!(claiming.next_lock().is_none());
    assert_eq!(claiming.claimed, vec![doc(vec![("_id", uuid_bson(4))])]);
}

#[test]
fn readers_report_what_waits() {
    let c = MongoDbConsumer::new(&config(), StreamOpening::Opened).unwrap();
    let s = c.status("db", Probe::Up(Ok(7)));
    assert!(s.healthy);
    assert_eq!((s.pending, s.target.as_str()), (Some(7), "orders"));
    assert_eq!(s.details[1].1, Detail::Text("change_stream".to_string()));
    let s = c.status("db", Probe::Up(Err("x".to_string())));
    assert!(s.healthy);
    assert_eq!(s.error.as_deref(), Some("Failed to count pending documents: x"));
    let s = c.status("db", Probe::Down("gone".to_string()));
    assert!(!s.healthy);
    assert_eq!(s.error.as_deref(), Some("gone"));

    let sub = MongoDbSubscriber::new(&config(), false, None, None).unwrap();
    let stats = || {
        doc(vec![("capped", BsonValue::Boolean(true)), ("max", BsonValue::Int64(100))])
    };
    let s = sub.status(Probe::Up(Ok(1)), Ok(stats()));
    assert_eq!(s.capacity, Some(100));
    assert_eq!(s.details[1], ("capped".to_string(), Detail::Flag(true)));
    let s = sub.status(Probe::Up(Ok(1)), Err("no".to_string()));
    assert_eq!(s.error.as_deref(), Some("Failed to get collStats: no"));
    let s = sub.status(Probe::Down("gone".to_string()), Ok(stats()));
    assert_eq!(s.capacity, None);
    assert!(stats_are_fresh(4_999_999_999));
    assert!(!stats_are_fresh(5_000_000_000));

    let r = MongoDbIdReader::new(&config(), None).unwrap();
    assert_eq!(r.status(Probe::Up(Ok(2))).details[1].1, Detail::Text("resumable".to_string()));
    let (r, _) = MongoDbChangeStreamReader::new(&config(), None, false).unwrap();
    assert_eq!(r.status(None).details[1].1, Detail::Text("cdc".to_string()));
    let (p, _) = MongoDbPublisher::new(&config()).unwrap();
    let s = p.status("db", Some("gone".to_string()));
    assert!(!s.healthy);
    assert_eq!(s.details[1].1, Detail::Flag(false));
}

#[test]
fn requests_that_were_stored_before() {
    let mut c = config();
    c.request_reply = true;
    let (p, setup) = MongoDbPublisher::new(&c).unwrap();
    assert!(p.sends_one_by_one());
    assert!(setup.reply_index);
    let m = CanonicalMessage::new(b"x".to_vec(), Some(6));
    assert_eq!(p.stored_id(&m).unwrap(), uuid_bson(6));
    let duplicate = InsertOutcome::Refused { code: DUPLICATE_KEY, why: "dup".to_string() };
    assert!(p.on_request_insert(InsertOutcome::Done).is_ok());
    assert_ne!(
        p.on_request_insert(InsertOutcome::Done).unwrap(),
        p.on_request_insert(duplicate).unwrap()
    );
    assert!(p.on_request_insert(InsertOutcome::Failed("x".to_string())).is_err());
    let (filter, update) = sequencer_update("orders", 3);
    assert!(filter.contains_key("_id"));
    assert_eq!(
        update,
        doc(vec![("$inc", sub(vec![("seq_counter", BsonValue::Int64(3))]))])
    );
    assert_eq!(
        snapshot_filter(&None, &None),
        doc(vec![("seq_counter", sub(vec![("$exists", BsonValue::Boolean(false))]))])
    );
}

#[test]
fn refused_snapshots_are_read_again() {
    let mut c = config();
    c.cursor_id = Some("c".to_string());
    let (mut r, _) = MongoDbChangeStreamReader::new(&c, None, true).unwrap();
    let mut batch = SnapshotBatch { messages: vec![], ids: vec![] };
    for id in [1, 2] {
        r.on_snapshot_document(&mut batch, doc(vec![("_id", BsonValue::Int64(id))]));
    }
    assert_eq!(r.snapshot_last_id, Some(BsonValue::Int64(2)));
    r.hand_out();
    r.commit_snapshot(
        &batch.ids,
        None,
        &vec![MessageDisposition::Ack, MessageDisposition::Nack],
    );
    assert_eq!(r.inflight, 0);
    assert_eq!(r.snapshot_last_id, Some(BsonValue::Int64(1)));
}

fn stores(format: MongoDbFormat, request_reply: bool, report_outcome: bool) -> MongoDbPublisher {
    MongoDbPublisher {
        collection_name: "orders".to_string(),
        meta_collection_name: "orders".to_string(),
        request_reply,
        request_timeout_ms: 1000,
        reply_polling_ms: 50,
        format,
        id_field: None,
        report_outcome,
    }
}

fn message(text: &str, id: u128) -> CanonicalMessage {
    CanonicalMessage::new(text.as_bytes().to_vec(), Some(id))
}

#[test]
fn a_message_is_numbered_and_stored() {
    let p = stores(MongoDbFormat::Normal, false, true);
    let (run, action) = MongoSend::start(&p, message("a", 1), 0);
    match action {
        StoreAction::Reserve { filter, update } => {
            assert!(matches!(filter.get("_id"), Some(BsonValue::Text(t)) if t == "orders:sequencer"));
            assert!(update.contains_key("$inc"));
        }
        other => panic!("unexpected {:?}", other),
    }
    let counter = doc(vec![("seq_counter", BsonValue::Int64(7))]);
    let (run, action) = run.step(&p, StoreEvent::Counter(CounterOutcome::Document(counter)));
    match action {
        StoreAction::Insert(d) => assert_eq!(d.get_i64("seq"), Ok(7)),
        other => panic!("unexpected {:?}", other),
    }
    let (run, action) = run.step(&p, StoreEvent::Inserted(InsertOutcome::Done));
    assert!(matches!(run.stage, StoreStage::Done));
    match action {
        StoreAction::Finish(Ok(Sent::Response(m))) => {
            assert_eq!(value(&m.metadata, OUTCOME_KEY), Some(OUTCOME_INSERTED));
        }
        other => panic!("unexpected {:?}", other),
    }
    let (run, _) = MongoSend::start(&p, message("a", 1), 0);
    let (_, action) = run.step(&p, StoreEvent::Counter(CounterOutcome::NotReturned));
    match action {
        StoreAction::Finish(Err(e)) => assert_eq!(
            failure(e),
            ("Sequencer document not returned after upsert".to_string(), true)
        ),
        other => panic!("unexpected {:?}", other),
    }
}

#[test]
fn a_raw_message_is_stored_without_a_number() {
    let p = stores(MongoDbFormat::Raw, false, false);
    let (run, action) = MongoSend::start(&p, message("{\"a\":1}", 1), 0);
    assert!(matches!(action, StoreAction::Insert(_)));
    let refused = InsertOutcome::Refused { code: 1, why: "no".to_string() };
    let (_, action) = run.step(&p, StoreEvent::Inserted(refused));
    match action {
        StoreAction::Finish(Err(e)) => {
            assert_eq!(failure(e), ("Failed to insert document into MongoDB".to_string(), true));
        }
        other => panic!("unexpected {:?}", other),
    }
    let (_, action) = MongoSend::start(&p, message("not json", 1), 0);
    assert!(matches!(action, StoreAction::Insert(d) if is_wrapped_message(&d)));
    let p = MongoDbPublisher { id_field: Some("order_id".to_string()), ..p };
    let (_, action) = MongoSend::start(&p, message("not json", 1), 0);
    assert!(matches!(action, StoreAction::Finish(Err(PublisherError::NonRetryable(_)))));
}

#[test]
fn a_request_waits_for_its_reply() {
    let p = stores(MongoDbFormat::Normal, true, false);
    let request = message("ping", 1).with_metadata_kv("correlation_id", "c1");
    let (run, action) = MongoSend::start(&p, request, 0);
    assert!(matches!(action, StoreAction::Insert(_)));
    assert_eq!(value(&run.message.metadata, "reply_to"), Some("orders_replies"));
    let (run, action) = run.step(&p, StoreEvent::Inserted(InsertOutcome::Done));
    assert!(matches!(action, StoreAction::Pause(0)));
    let (run, action) = run.step(&p, StoreEvent::Passed(5));
    match action {
        StoreAction::Look { collection, filter } => {
            assert_eq!(collection, "orders_replies");
            let under = filter.get("metadata.correlation_id");
            assert!(matches!(under, Some(BsonValue::Text(t)) if t == "c1"));
        }
        other => panic!("unexpected {:?}", other),
    }
    let (run, action) = run.step(&p, StoreEvent::Found(Lookup::NotFound));
    assert!(matches!(action, StoreAction::Pause(50_000_000)));
    let (run, action) = run.step(&p, StoreEvent::Passed(1_000_000_000));
    assert!(matches!(action, StoreAction::Look { .. }));
    let (run, action) = run.step(&p, StoreEvent::Found(Lookup::Failed("down".to_string())));
    assert!(matches!(action, StoreAction::Pause(75_000_000)));
    let (_, action) = run.step(&p, StoreEvent::Passed(1_000_000_001));
    match action {
        StoreAction::Finish(Err(e)) => assert_eq!(
            failure(e),
            ("Request timed out waiting for MongoDB response".to_string(), false)
        ),
        other => panic!("unexpected {:?}", other),
    }
}

#[test]
fn a_repeated_request_waits_for_the_first_reply() {
    let p = stores(MongoDbFormat::Normal, true, false);
    let first = message("ping", 1).with_metadata_kv("correlation_id", "c0");
    let stored = message_to_document(&first, &MongoDbFormat::Normal, None, 0).unwrap();
    let (run, _) = MongoSend::start(&p, message("ping", 1), 0);
    let taken = InsertOutcome::Refused { code: DUPLICATE_KEY, why: "taken".to_string() };
    let (run, action) = run.step(&p, StoreEvent::Inserted(taken));
    assert!(matches!(action, StoreAction::Find(_)));
    let (run, action) = run.step(&p, StoreEvent::Found(Lookup::Found(stored)));
    assert!(matches!(action, StoreAction::Pause(0)));
    let (run, action) = run.step(&p, StoreEvent::Passed(0));
    match action {
        StoreAction::Look { filter, .. } => {
            let under = filter.get("metadata.correlation_id");
            assert!(matches!(under, Some(BsonValue::Text(t)) if t == "c0"));
        }
        other => panic!("unexpected {:?}", other),
    }
    let reply =
        message_to_document(&message("pong", 2), &MongoDbFormat::Normal, None, 0).unwrap();
    let (_, action) = run.step(&p, StoreEvent::Found(Lookup::Found(reply)));
    match action {
        StoreAction::Finish(Ok(Sent::Response(m))) => assert_eq!(m.payload, b"pong".to_vec()),
        other => panic!("unexpected {:?}", other),
    }
}

#[test]
fn a_batch_is_numbered_and_stored_in_order() {
    let p = stores(MongoDbFormat::Normal, false, false);
    let (_, action) = BatchStage::start(&p, vec![], 0);
    assert!(matches!(action, BatchAction::Finish(Ok(SentBatch::Ack))));
    let (stage, action) = BatchStage::start(&p, vec![message("a", 1), message("b", 2)], 0);
    assert!(matches!(action, BatchAction::Reserve { .. }));
    let counter = doc(vec![("seq_counter", BsonValue::Int64(9))]);
    let (stage, action) = stage.step(BatchEvent::Counter(CounterOutcome::Document(counter)));
    match action {
        BatchAction::InsertAll(docs) => {
            let seqs: Vec<_> = docs.iter().map(|d| d.get_i64("seq").unwrap()).collect();
            assert_eq!(seqs, vec![8, 9]);
        }
        other => panic!("unexpected {:?}", other),
    }
    let error = WriteError { index: 0, code: 1, text: "x".to_string() };
    let refused = InsertManyOutcome::Refused { errors: vec![error], write_concern: false };
    let (_, action) = stage.step(BatchEvent::Inserted(refused));
    match action {
        BatchAction::Finish(Ok(SentBatch::Partial { failed, .. })) => assert_eq!(failed.len(), 2),
        other => panic!("unexpected {:?}", other),
    }
}

#[test]
fn a_batch_without_documents_is_not_stored() {
    let p = stores(MongoDbFormat::Raw, false, false);
    let p = MongoDbPublisher { id_field: Some("a".to_string()), ..p };
    let (stage, action) = BatchStage::start(&p, vec![message("no json", 1)], 0);
    assert!(matches!(stage, BatchStage::Done));
    match action {
        BatchAction::Finish(Ok(SentBatch::Partial { failed, responses: None })) => {
            assert_eq!(failed.len(), 1);
        }
        other => panic!("unexpected {:?}", other),
    }
    let (_, action) = BatchStage::start(&p, vec![message("{\"a\":1}", 1)], 0);
    assert!(matches!(action, BatchAction::InsertAll(docs) if docs.len() == 1));
}

#[test]
fn a_batch_with_reported_outcomes_is_sent_one_by_one() {
    let p = stores(MongoDbFormat::Normal, false, true);
    let (stage, action) = BatchStage::start(&p, vec![message("a", 1)], 0);
    let message = match action {
        BatchAction::SendEach(mut messages) => messages.remove(0),
        other => panic!("unexpected {:?}", other),
    };
    let outcome = Ok(Sent::Response(message.copy()));
    let (_, action) = stage.step(BatchEvent::Sent(vec![SendResult { message, outcome }]));
    match action {
        BatchAction::Finish(Ok(SentBatch::Partial { responses: Some(r), failed })) => {
            assert_eq!((r.len(), failed.len()), (1, 0));
        }
        other => panic!("unexpected {:?}", other),
    }
}
