# mq_bridge

Endpoints of a message bridge: HTTP, gRPC, MongoDB and local pipes, with the rules by
which endpoints refer to each other and are put together into routes.

`src/` is the library. It holds what the endpoints decide and compute, and Verus proves
it: every public function states what it returns, and the functions named `law_..` state
what holds across several of them. What goes through another crate stands behind a small
function that says in its doc comment what is taken from that crate.

`app/` performs what the library asks for. It owns sockets, clients, timers and tasks,
and hands back what came of them. The longer exchanges run as state machines of the
library: `http::exchange::Exchange` for a served request, `http::sending::HttpSend` and
`mongo::sending::MongoSend` for a sent message, `mongo::sending::BatchStage` for a batch.

`tests/` runs the library on concrete values.

## Modules

| Module | What it holds |
|--------|---------------|
| `endpoint`, `models` | endpoints, their settings and builders |
| `checks`, `resolve`, `publishers`, `fast_path` | checking, resolving and creating endpoints and routes |
| `message`, `status` | messages, outcomes and what endpoints report |
| `http` | routing, authentication, bodies, streams, limits and clients |
| `grpc` | the bridge service, its subscriptions, calls by descriptor, and which descriptors they can use |
| `mongo` | documents, queues, events, pages, change streams and commits |
| `ipc`, `wire` | frames of local pipes |
| `text`, `numbers`, `bytes`, `names`, `ids`, `json` | what the others share |
