# epoll-router

A router for AI work on private workers. Workers sit behind NAT or in private
networks and dial out to the router over a WebSocket; clients send the router
ordinary HTTP requests. The router gives each request to the first healthy worker
with room for it that serves the model, or advertises the capability, and passes
the worker's answers on to the client.

The rules of the router are a library verified with Verus; the server and the
sockets around it are ordinary Rust.

## Layout

- `src/` is the verified library.
  - `protocol`: the messages between the router and its workers.
  - `workers`, `state`, `socket`: who is connected, who waits for which job, and
    what each message of a worker does.
  - `api`: the HTTP requests, the jobs they become, and the replies.
  - `stream`: server-sent events, and replies that are not streamed.
  - `auth`: configured keys and bearer tokens.
  - `worker`: a mock worker.
  - `json`, `text`, `ids`, `search`: JSON values and their text, strings, ids, and
    the first match in a sequence.
  - `laws`, `reply_laws`, `key_laws`, `json_laws`: what holds of the whole.
- `tests/` runs the library on concrete values.
- `app/` is the program: the HTTP server, the worker sockets and the JSON of the
  payloads. Without an argument it runs the router, with `mock-worker` the mock
  worker.

## Configuration

- `CLIENT_KEYS`, `WORKER_KEYS`: `id:token` entries with commas between them.
- `ROUTER_ADDR`: where the router listens (`127.0.0.1:3000`).
- `ROUTER_WS_URL`, `WORKER_ID`, `WORKER_TOKEN`: the mock worker's connection.

Without keys of its own the router knows the client token `dev-client-token` and
the worker token `dev-worker-token`.

## What is trusted

The proofs rest on the stated behaviour of a few functions of other crates: the
lookup and the text of HTTP headers (`http`), the form of a random UUID (`uuid`),
a JSON string's text (`serde_json`), and comparisons and conversions of `std`. Each
stands in `src/` with the claim that is made of it.
