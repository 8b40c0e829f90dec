//! Methods that a protobuf descriptor set describes.

use vstd::prelude::*;

use crate::grpc::sound::{set_is_sound, set_sound};
use crate::ids::is_v7;
use crate::message::{CanonicalMessage, FailureView, MessageView, Pairs, PublisherError};
use crate::models::GrpcConfig;
use crate::numbers::{signed_decimal, signed_decimal_text};
use crate::text::{join2, join3, join5, opt, same};
use crate::wire::{push_varint, varint};

verus! {

/// The error that `prost_reflect::DescriptorPool::decode` gives for bytes.
pub uninterp spec fn pool_error(set: Seq<u8>) -> Option<Seq<char>>;

/// The full name of a service in a descriptor set, and of each of its methods the
/// name, whether it streams requests, whether it streams responses, and the full
/// name of its input, as `prost_reflect::DescriptorPool::get_service_by_name` finds
/// them.
pub uninterp spec fn service_found(set: Seq<u8>, service: Seq<char>) -> Option<
    (Seq<char>, Seq<(Seq<char>, bool, bool, Seq<char>)>),
>;

/// The bytes that a JSON payload may be encoded as for the method at a position of a
/// service, or why it cannot be. The entries of a map field may come in any order.
pub uninterp spec fn proto_inputs(
    set: Seq<u8>,
    service: Seq<char>,
    method: int,
    payload: Seq<u8>,
) -> Result<Set<Seq<u8>>, Seq<char>>;

/// The JSON that a response may read as for the method at a position of a service,
/// or why it may not read: `true` where its bytes do not decode, `false` where what
/// they decode to has no JSON. The entries of a map field may come in any order.
pub uninterp spec fn proto_outputs(
    set: Seq<u8>,
    service: Seq<char>,
    method: int,
    bytes: Seq<u8>,
) -> Result<Set<Seq<u8>>, Set<(bool, Seq<char>)>>;

/// `prost_reflect::DescriptorPool::decode` takes a set of file descriptors, and says
/// what is wrong with it. What makes a set valid is left to it. A set that is not sound
/// it may fail on instead.
#[verifier::external_body]
pub(crate) fn descriptor_error(set: &[u8]) -> (e: Option<String>)
    requires
        set_sound(set@),
    ensures
        opt(e) == pool_error(set@),
{
    prost_reflect::DescriptorPool::decode(set).err().map(|e| e.to_string())
}

/// A method as a descriptor set lists it, over mathematical values.
pub open spec fn listed(methods: Seq<(String, bool, bool, String)>) -> Seq<
    (Seq<char>, bool, bool, Seq<char>),
> {
    methods.map_values(|m: (String, bool, bool, String)| (m.0@, m.1, m.2, m.3@))
}

/// `prost_reflect::DescriptorPool::get_service_by_name` finds a service by its full
/// name, and the service lists its methods in the order of the descriptor.
#[verifier::external_body]
pub(crate) fn find_service(set: &[u8], service: &str) -> (found: Option<
    (String, Vec<(String, bool, bool, String)>),
>)
    requires
        set_sound(set@),
    ensures
        match found {
            Some(f) => service_found(set@, service@) == Some((f.0@, listed(f.1@))),
            None => service_found(set@, service@) is None,
        },
{
    let pool = prost_reflect::DescriptorPool::decode(set).ok()?;
    let found = pool.get_service_by_name(service)?;
    let methods = found.methods().map(
        |m| (m.name().to_owned(), m.is_client_streaming(), m.is_server_streaming(),
            m.input().full_name().to_owned()),
    ).collect();
    Some((found.full_name().to_owned(), methods))
}

/// `prost_reflect::DynamicMessage::deserialize` reads JSON as the input message of a
/// method, and `prost::Message::encode_to_vec` writes it. The bytes are one of those
/// that the payload may be encoded as.
#[verifier::external_body]
pub(crate) fn encode_input(set: &[u8], service: &str, method: usize, payload: &[u8]) -> (res:
    Result<Vec<u8>, String>)
    requires
        set_sound(set@),
        service_found(set@, service@) is Some,
        method < (service_found(set@, service@)->0).1.len(),
    ensures
        match res {
            Ok(bytes) => (proto_inputs(set@, service@, method as int, payload@) matches Ok(all)
                && all.contains(bytes@)),
            Err(e) => proto_inputs(set@, service@, method as int, payload@) == Err::<
                Set<Seq<u8>>,
                Seq<char>,
            >(e@),
        },
{
    let pool = prost_reflect::DescriptorPool::decode(set).unwrap();
    let found = pool.get_service_by_name(service).unwrap();
    let input = found.methods().nth(method).unwrap().input();
    let mut json = serde_json::Deserializer::from_slice(payload);
    match prost_reflect::DynamicMessage::deserialize(input, &mut json) {
        Ok(message) => Ok(prost::Message::encode_to_vec(&message)),
        Err(e) => Err(e.to_string()),
    }
}

/// `prost_reflect::DynamicMessage::decode` reads bytes as the output message of a
/// method, and `serde_json::to_vec` writes it as JSON. The JSON is one of those that
/// the bytes may read as. Messages packed in messages of the type `Any` are followed as
/// deep as they nest, which the stack alone bounds.
#[verifier::external_body]
pub(crate) fn decode_output(set: &[u8], service: &str, method: usize, bytes: &[u8]) -> (res:
    Result<Vec<u8>, (bool, String)>)
    requires
        set_sound(set@),
        service_found(set@, service@) is Some,
        method < (service_found(set@, service@)->0).1.len(),
    ensures
        match res {
            Ok(json) => (proto_outputs(set@, service@, method as int, bytes@) matches Ok(all)
                && all.contains(json@)),
            Err(e) => (proto_outputs(set@, service@, method as int, bytes@) matches Err(all)
                && all.contains((e.0, e.1@))),
        },
{
    let pool = prost_reflect::DescriptorPool::decode(set).unwrap();
    let found = pool.get_service_by_name(service).unwrap();
    let output = found.methods().nth(method).unwrap().output();
    match prost_reflect::DynamicMessage::decode(output, bytes) {
        Ok(message) => serde_json::to_vec(&message).map_err(|e| (false, e.to_string())),
        Err(e) => Err((true, e.to_string())),
    }
}

/// A method of a descriptor set. It is always one that the set describes.
#[derive(Debug)]
pub struct DynamicMethod {
    set: Vec<u8>,
    lookup: String,
    service_name: String,
    method_name: String,
    index: usize,
    client_streaming: bool,
    server_streaming: bool,
    input: String,
}

/// A method of a descriptor set over mathematical values.
pub struct MethodView {
    pub set: Seq<u8>,
    /// The name by which the service was looked up.
    pub lookup: Seq<char>,
    /// The full name of the service.
    pub service_name: Seq<char>,
    pub method_name: Seq<char>,
    /// The position of the method in its service.
    pub index: int,
    pub client_streaming: bool,
    pub server_streaming: bool,
    /// The full name of the input message.
    pub input: Seq<char>,
}

impl View for DynamicMethod {
    type V = MethodView;

    closed spec fn view(&self) -> MethodView {
        MethodView {
            set: self.set@,
            lookup: self.lookup@,
            service_name: self.service_name@,
            method_name: self.method_name@,
            index: self.index as int,
            client_streaming: self.client_streaming,
            server_streaming: self.server_streaming,
            input: self.input@,
        }
    }
}

impl MethodView {
    /// Whether the method is in its descriptor set, and a pool can work with that.
    pub open spec fn described(self) -> bool {
        match service_found(self.set, self.lookup) {
            Some(found) => {
                &&& set_sound(self.set)
                &&& found.0 == self.service_name
                &&& 0 <= self.index < found.1.len()
                &&& found.1[self.index] == (
                    self.method_name,
                    self.client_streaming,
                    self.server_streaming,
                    self.input,
                )
            },
            None => false,
        }
    }

    /// The bytes that a payload may be encoded as.
    pub open spec fn inputs(self, payload: Seq<u8>) -> Result<Set<Seq<u8>>, Seq<char>> {
        proto_inputs(self.set, self.lookup, self.index, payload)
    }

    /// The JSON that a response may read as.
    pub open spec fn outputs(self, bytes: Seq<u8>) -> Result<
        Set<Seq<u8>>,
        Set<(bool, Seq<char>)>,
    > {
        proto_outputs(self.set, self.lookup, self.index, bytes)
    }
}

impl DynamicMethod {
    #[verifier::type_invariant]
    spec fn is_described(self) -> bool {
        self@.described()
    }

    /// The full name of the service.
    pub fn service_name(&self) -> (name: &str)
        ensures
            name@ == self@.service_name,
    {
        self.service_name.as_str()
    }

    /// The name of the method.
    pub fn method_name(&self) -> (name: &str)
        ensures
            name@ == self@.method_name,
    {
        self.method_name.as_str()
    }

    /// Whether the method takes a stream of requests.
    pub fn is_client_streaming(&self) -> (res: bool)
        ensures
            res == self@.client_streaming,
    {
        self.client_streaming
    }

    /// Whether the method gives a stream of responses.
    pub fn is_server_streaming(&self) -> (res: bool)
        ensures
            res == self@.server_streaming,
    {
        self.server_streaming
    }
}

/// Where the descriptors of a dynamic endpoint come from.
#[derive(Debug)]
pub enum DescriptorSource<'a> {
    Bytes(&'a Vec<u8>),
    File(&'a String),
    Reflection,
}

/// What is called, and where its descriptors come from.
#[derive(Debug)]
pub struct DynamicTarget<'a> {
    pub service_name: &'a String,
    pub method_name: &'a String,
    pub source: DescriptorSource<'a>,
}

/// Why a dynamic endpoint cannot be set up from a configuration.
pub open spec fn target_refusal(config: GrpcConfig) -> Option<Seq<char>> {
    if config.service_name is None {
        Some("dynamic gRPC requires service_name"@)
    } else if config.method_name is None {
        Some("dynamic gRPC requires method_name"@)
    } else if config.descriptor_set_bytes is None && config.descriptor_set_path is None
        && !config.reflection {
        Some(
            "dynamic gRPC requires descriptor_set_bytes, descriptor_set_path, or reflection: true"@,
        )
    } else {
        None
    }
}

/// What a dynamic endpoint calls, and where its descriptors come from: given bytes
/// before a file before reflection.
pub fn dynamic_target<'a>(config: &'a GrpcConfig) -> (res: Result<DynamicTarget<'a>, String>)
    ensures
        match res {
            Ok(t) => {
                &&& target_refusal(*config) is None
                &&& config.service_name == Some(*t.service_name)
                &&& config.method_name == Some(*t.method_name)
                &&& match t.source {
                    DescriptorSource::Bytes(b) => config.descriptor_set_bytes == Some(*b),
                    DescriptorSource::File(f) => config.descriptor_set_bytes is None
                        && config.descriptor_set_path == Some(*f),
                    DescriptorSource::Reflection => config.descriptor_set_bytes is None
                        && config.descriptor_set_path is None,
                }
            },
            Err(e) => target_refusal(*config) == Some(e@),
        },
{
    let service_name = match &config.service_name {
        Some(s) => s,
        None => {
            return Err("dynamic gRPC requires service_name".to_owned());
        },
    };
    let method_name = match &config.method_name {
        Some(s) => s,
        None => {
            return Err("dynamic gRPC requires method_name".to_owned());
        },
    };
    let source = match &config.descriptor_set_bytes {
        Some(b) => DescriptorSource::Bytes(b),
        None => match &config.descriptor_set_path {
            Some(f) => DescriptorSource::File(f),
            None => {
                if !config.reflection {
                    return Err(
                        "dynamic gRPC requires descriptor_set_bytes, descriptor_set_path, or reflection: true".to_owned(),
                    );
                }
                DescriptorSource::Reflection
            },
        },
    };
    Ok(DynamicTarget { service_name, method_name, source })
}

/// The first method at or after `i` of a name, or the length.
pub open spec fn method_at(
    methods: Seq<(Seq<char>, bool, bool, Seq<char>)>,
    name: Seq<char>,
    i: int,
) -> int
    decreases methods.len() - i,
{
    if i >= methods.len() {
        methods.len() as int
    } else if methods[i].0 == name {
        i
    } else {
        method_at(methods, name, i + 1)
    }
}

/// Why a method is not found in a descriptor set.
pub open spec fn method_refusal(set: Seq<u8>, service: Seq<char>, method: Seq<char>) -> Option<
    Seq<char>,
> {
    if !set_sound(set) {
        Some("gRPC descriptor set is not well-formed"@)
    } else if pool_error(set) is Some {
        pool_error(set)
    } else {
        match service_found(set, service) {
            None => Some(
                "gRPC service '"@ + service + "' not found in the discovered descriptors"@,
            ),
            Some(found) => if method_at(found.1, method, 0) >= found.1.len() {
                Some("gRPC method '"@ + service + "."@ + method + "' not found"@)
            } else {
                None
            },
        }
    }
}

/// Finds a method in a descriptor set.
pub fn resolve_dynamic_method(set: Vec<u8>, service: &str, method: &str) -> (res: Result<
    DynamicMethod,
    String,
>)
    ensures
        match res {
            Ok(m) => {
                &&& method_refusal(set@, service@, method@) is None
                &&& m@.described()
                &&& m@.set == set@
                &&& m@.lookup == service@
                &&& m@.method_name == method@
                &&& m@.index == method_at((service_found(set@, service@)->0).1, method@, 0)
            },
            Err(e) => method_refusal(set@, service@, method@) == Some(e@),
        },
{
    if !set_is_sound(set.as_slice()) {
        return Err("gRPC descriptor set is not well-formed".to_owned());
    }
    if let Some(e) = descriptor_error(set.as_slice()) {
        return Err(e);
    }
    match find_service(set.as_slice(), service) {
        None => Err(
            join3("gRPC service '", service, "' not found in the discovered descriptors"),
        ),
        Some(found) => {
            let ghost rows = listed(found.1@);
            let mut i: usize = 0;
            while i < found.1.len()
                invariant
                    i <= found.1@.len(),
                    rows == listed(found.1@),
                    service_found(set@, service@) == Some((found.0@, rows)),
                    set_sound(set@),
                    pool_error(set@) is None,
                    method_at(rows, method@, 0) == method_at(rows, method@, i as int),
                decreases found.1@.len() - i,
            {
                assert(rows[i as int].0 == found.1@[i as int].0@);
                if same(found.1[i].0.as_str(), method) {
                    let m = DynamicMethod {
                        lookup: service.to_owned(),
                        service_name: found.0,
                        method_name: method.to_owned(),
                        index: i,
                        client_streaming: found.1[i].1,
                        server_streaming: found.1[i].2,
                        input: found.1[i].3.clone(),
                        set,
                    };
                    return Ok(m);
                }
                i += 1;
            }
            Err(join5("gRPC method '", service, ".", method, "' not found"))
        },
    }
}

/// What a server said when asked for the descriptors of a service.
#[derive(Debug)]
pub enum ReflectionAnswer {
    /// The stream of answers ended.
    Nothing,
    /// File descriptors, each encoded.
    Files(Vec<Vec<u8>>),
    Error { code: i32, message: String },
    Other,
}

/// File descriptors as one set: each with its field number and length in front.
pub open spec fn set_of_files(files: Seq<Seq<u8>>) -> Seq<u8>
    decreases files.len(),
{
    if files.len() == 0 {
        seq![]
    } else {
        set_of_files(files.drop_last()) + seq![10u8] + varint(files.last().len()) + files.last()
    }
}

/// Files over byte sequences.
pub open spec fn file_views(files: Seq<Vec<u8>>) -> Seq<Seq<u8>> {
    files.map_values(|f: Vec<u8>| f@)
}

/// A file descriptor with only what `prost_types::FileDescriptorProto` knows of it, or
/// why it is none.
pub uninterp spec fn plain_file(file: Seq<u8>) -> Result<Seq<u8>, Seq<char>>;

/// `prost_types::FileDescriptorProto` reads a file descriptor, which leaves out what it
/// does not know, and is written again.
#[verifier::external_body]
pub(crate) fn reread_file(file: &[u8]) -> (res: Result<Vec<u8>, String>)
    ensures
        match res {
            Ok(bytes) => plain_file(file@) == Ok::<Seq<u8>, Seq<char>>(bytes@),
            Err(e) => plain_file(file@) == Err::<Seq<u8>, Seq<char>>(e@),
        },
{
    let read = <prost_reflect::prost_types::FileDescriptorProto as prost::Message>::decode(file);
    read.map(|f| prost::Message::encode_to_vec(&f)).map_err(|e| e.to_string())
}

/// The first `n` of the files with only what is known of them, or why one of them is
/// none.
pub open spec fn plain_files(files: Seq<Seq<u8>>, n: nat) -> Result<Seq<Seq<u8>>, Seq<char>>
    decreases n,
{
    if n == 0 || n > files.len() {
        Ok(seq![])
    } else {
        match plain_files(files, (n - 1) as nat) {
            Ok(done) => match plain_file(files[n - 1]) {
                Ok(bytes) => Ok(done.push(bytes)),
                Err(why) => Err(why),
            },
            Err(why) => Err(why),
        }
    }
}

proof fn lemma_first_failure(files: Seq<Seq<u8>>, i: nat, n: nat)
    requires
        i <= n <= files.len(),
        plain_files(files, i) is Err,
    ensures
        plain_files(files, n) == plain_files(files, i),
    decreases n,
{
    if i < n {
        lemma_first_failure(files, i, (n - 1) as nat);
    }
}

fn set_from_files(files: &Vec<Vec<u8>>) -> (res: Result<Vec<u8>, String>)
    ensures
        match plain_files(file_views(files@), files@.len()) {
            Ok(plain) => res matches Ok(set) && set@ == set_of_files(plain),
            Err(why) => res matches Err(e) && e@ == why,
        },
{
    let mut set: Vec<u8> = Vec::new();
    let mut i: usize = 0;
    let ghost all = file_views(files@);
    let ghost mut plain: Seq<Seq<u8>> = seq![];
    assert(set@ =~= set_of_files(plain));
    while i < files.len()
        invariant
            i <= files@.len(),
            all == file_views(files@),
            plain_files(all, i as nat) == Ok::<Seq<Seq<u8>>, Seq<char>>(plain),
            set@ == set_of_files(plain),
        decreases files@.len() - i,
    {
        assert(all[i as int] == files@[i as int]@);
        let mut file = match reread_file(files[i].as_slice()) {
            Ok(f) => f,
            Err(e) => {
                proof {
                    lemma_first_failure(all, (i + 1) as nat, files@.len());
                }
                return Err(e);
            },
        };
        let ghost bytes = file@;
        let ghost before = set@;
        assert(plain.push(bytes).drop_last() =~= plain);
        set.push(10u8);
        assert(set@ =~= before + seq![10u8]);
        push_varint(&mut set, file.len());
        let ghost mid = set@;
        set.append(&mut file);
        assert(set@ =~= mid + bytes);
        proof {
            plain = plain.push(bytes);
        }
        i += 1;
    }
    Ok(set)
}

/// The descriptor set that a server's answer makes, or why it makes none. A file that
/// cannot be read is an error.
pub fn reflected_descriptor_set(answer: ReflectionAnswer, service: &str) -> (res: Result<
    Vec<u8>,
    String,
>)
    ensures
        match answer {
            ReflectionAnswer::Files(files) => match plain_files(
                file_views(files@),
                files@.len(),
            ) {
                Ok(plain) => res matches Ok(set) && set@ == set_of_files(plain),
                Err(why) => res matches Err(e) && e@ == why,
            },
            ReflectionAnswer::Nothing => (res matches Err(e) && e@
                == "gRPC reflection returned no descriptor for '"@ + service@ + "'"@),
            ReflectionAnswer::Error { code, message } => (res matches Err(e) && e@
                == "gRPC reflection failed for '"@ + service@ + "' with code "@
                + signed_decimal(code as int) + ": "@ + message@),
            ReflectionAnswer::Other => (res matches Err(e) && e@
                == "gRPC reflection returned an unexpected response for '"@ + service@ + "'"@),
        },
{
    match answer {
        ReflectionAnswer::Nothing => Err(
            join3("gRPC reflection returned no descriptor for '", service, "'"),
        ),
        ReflectionAnswer::Other => Err(
            join3("gRPC reflection returned an unexpected response for '", service, "'"),
        ),
        ReflectionAnswer::Error { code, message } => {
            let number = signed_decimal_text(code as i64);
            let head = join5(
                "gRPC reflection failed for '",
                service,
                "' with code ",
                number.as_str(),
                ": ",
            );
            Err(join2(head.as_str(), message.as_str()))
        },
        ReflectionAnswer::Files(files) => set_from_files(&files),
    }
}

/// How the requests and responses of a method come.
pub open spec fn shape(client_streaming: bool, server_streaming: bool) -> Seq<char> {
    if client_streaming && server_streaming {
        "bidirectional-streaming"@
    } else if client_streaming {
        "client-streaming"@
    } else if server_streaming {
        "server-streaming"@
    } else {
        "unary"@
    }
}

/// How the requests and responses of a method come.
pub fn method_shape(method: &DynamicMethod) -> (text: &'static str)
    ensures
        text@ == shape(method@.client_streaming, method@.server_streaming),
{
    if method.client_streaming && method.server_streaming {
        "bidirectional-streaming"
    } else if method.client_streaming {
        "client-streaming"
    } else if method.server_streaming {
        "server-streaming"
    } else {
        "unary"
    }
}

/// The path of a method.
pub fn method_path(method: &DynamicMethod) -> (path: String)
    ensures
        path@ == "/"@ + method@.service_name + "/"@ + method@.method_name,
{
    let head = join3("/", method.service_name.as_str(), "/");
    join2(head.as_str(), method.method_name.as_str())
}

fn shape_refusal_text(method: &DynamicMethod, rule: &str) -> (text: String)
    ensures
        text@ == wrong_shape(method@, rule@),
{
    let head = join5(
        "dynamic gRPC method '",
        method.service_name.as_str(),
        ".",
        method.method_name.as_str(),
        "' is ",
    );
    join3(head.as_str(), method_shape(method), rule)
}

/// Why a method of the wrong shape is refused.
pub open spec fn wrong_shape(method: MethodView, rule: Seq<char>) -> Seq<char> {
    "dynamic gRPC method '"@ + method.service_name + "."@ + method.method_name + "' is "@
        + shape(method.client_streaming, method.server_streaming) + rule
}

/// What follows the shape where a method cannot be consumed.
pub const INPUT_RULE: &'static str = "; a gRPC *input* consumes responses, so it supports unary and server-streaming methods only. A method that streams requests is a sink: use it as the route's output instead";

/// What follows the shape where a method cannot be published to.
pub const OUTPUT_RULE: &'static str = "; a gRPC *output* publishes messages and consumes one reply, so it supports unary and client-streaming methods only. A method that streams responses is a source: use it as the route's input instead";

/// The request of a consumer as JSON text: the configured one, or an empty object.
pub open spec fn request_text(config: GrpcConfig) -> Seq<char> {
    match config.request {
        Some(r) => r@,
        None => "{}"@,
    }
}

/// Plans the call of a consumer: the bytes of its one request. Its method must not
/// stream requests.
pub fn plan_dynamic_consumer(config: &GrpcConfig, method: &DynamicMethod) -> (res: Result<
    Vec<u8>,
    String,
>)
    ensures
        ({
            let inputs = method@.inputs(vstd::utf8::encode_utf8(request_text(*config)));
            match res {
                Ok(bytes) => {
                    &&& !method@.client_streaming
                    &&& inputs matches Ok(all) && all.contains(bytes@)
                },
                Err(e) => if method@.client_streaming {
                    e@ == wrong_shape(method@, INPUT_RULE@)
                } else {
                    inputs == Err::<Set<Seq<u8>>, Seq<char>>(e@)
                },
            }
        }),
{
    if method.client_streaming {
        return Err(shape_refusal_text(method, INPUT_RULE));
    }
    let text = match &config.request {
        Some(r) => r.clone(),
        None => "{}".to_owned(),
    };
    proof {
        use_type_invariant(method);
    }
    encode_input(
        method.set.as_slice(),
        method.lookup.as_str(),
        method.index,
        text.as_str().as_bytes(),
    )
}

/// Why a method cannot be published to from a configuration.
pub open spec fn publisher_refusal(config: GrpcConfig, method: MethodView) -> Option<
    Seq<char>,
> {
    if method.server_streaming {
        Some(wrong_shape(method, OUTPUT_RULE@))
    } else if config.request is Some && config.request->0@ != "null"@ {
        Some(
            "dynamic gRPC output does not use `request`: the published messages are the requests. Remove `request`, or move this endpoint to the route's input"@,
        )
    } else {
        None
    }
}

/// Whether a method can be published to: it must not stream responses, and the
/// messages are its requests.
pub fn check_dynamic_publisher(config: &GrpcConfig, method: &DynamicMethod) -> (res: Result<
    (),
    String,
>)
    ensures
        match res {
            Ok(_) => publisher_refusal(*config, method@) is None,
            Err(e) => publisher_refusal(*config, method@) == Some(e@),
        },
{
    if method.server_streaming {
        return Err(shape_refusal_text(method, OUTPUT_RULE));
    }
    if let Some(r) = &config.request {
        if !same(r.as_str(), "null") {
            return Err(
                "dynamic gRPC output does not use `request`: the published messages are the requests. Remove `request`, or move this endpoint to the route's input".to_owned(),
            );
        }
    }
    Ok(())
}

/// Why a payload that does not match a method's input is refused. It is not tried
/// again, for it would be refused again.
pub open spec fn input_failure(method: MethodView, why: Seq<char>) -> FailureView {
    FailureView::NonRetryable("gRPC payload does not match '"@ + method.input + "': "@ + why)
}

/// Encodes a payload as the input of a method.
pub fn encode_dynamic_input(method: &DynamicMethod, payload: &[u8]) -> (res: Result<
    Vec<u8>,
    PublisherError,
>)
    ensures
        match res {
            Ok(bytes) => (method@.inputs(payload@) matches Ok(all) && all.contains(bytes@)),
            Err(e) => (method@.inputs(payload@) matches Err(why) && e@ == input_failure(
                method@,
                why,
            )),
        },
{
    proof {
        use_type_invariant(method);
    }
    match encode_input(method.set.as_slice(), method.lookup.as_str(), method.index, payload) {
        Ok(bytes) => Ok(bytes),
        Err(why) => {
            let head = join3("gRPC payload does not match '", method.input.as_str(), "': ");
            Err(PublisherError::NonRetryable(join2(head.as_str(), why.as_str())))
        },
    }
}

/// Why a response that does not read is a failure.
pub open spec fn output_failure(decoding: bool, why: Seq<char>) -> FailureView {
    if decoding {
        FailureView::NonRetryable("gRPC response decode failed: "@ + why)
    } else {
        FailureView::NonRetryable("gRPC response encode failed: "@ + why)
    }
}

/// Whether `m` is a reply that carries one of the JSON texts of a response under an
/// identifier, or under a fresh one where none is given.
pub open spec fn is_reply(
    method: MethodView,
    bytes: Seq<u8>,
    id: Option<u128>,
    m: MessageView,
) -> bool {
    &&& method.outputs(bytes) matches Ok(all) && all.contains(m.payload)
    &&& m.metadata == Pairs::empty()
    &&& match id {
        Some(own) => m.message_id == own,
        None => is_v7(m.message_id),
    }
}

/// Reads a response as JSON.
pub fn decode_output_json(method: &DynamicMethod, bytes: &[u8]) -> (res: Result<
    Vec<u8>,
    (bool, String),
>)
    ensures
        match res {
            Ok(json) => (method@.outputs(bytes@) matches Ok(all) && all.contains(json@)),
            Err(e) => (method@.outputs(bytes@) matches Err(all) && all.contains((e.0, e.1@))),
        },
{
    proof {
        use_type_invariant(method);
    }
    decode_output(method.set.as_slice(), method.lookup.as_str(), method.index, bytes)
}

/// Reads a response as a message under the identifier of its request, so that it is
/// taken as the reply to it.
pub fn decode_dynamic_output(method: &DynamicMethod, bytes: &[u8], correlation_id: Option<u128>)
    -> (res: Result<CanonicalMessage, PublisherError>)
    ensures
        match res {
            Ok(m) => is_reply(method@, bytes@, correlation_id, m@),
            Err(e) => (method@.outputs(bytes@) matches Err(all) && exists|decoding: bool, why: Seq<
                char,
            >| #[trigger]
                all.contains((decoding, why)) && e@ == output_failure(decoding, why)),
        },
{
    match decode_output_json(method, bytes) {
        Ok(json) => Ok(CanonicalMessage::new(json, correlation_id)),
        Err((decoding, why)) => {
            let head = if decoding {
                "gRPC response decode failed: "
            } else {
                "gRPC response encode failed: "
            };
            Err(PublisherError::NonRetryable(join2(head, why.as_str())))
        },
    }
}

} // verus!
