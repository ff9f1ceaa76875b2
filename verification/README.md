# cosmon-rpp-adapter

The HTTP adapter that lets a tenant drive its noyau from outside: it verifies a
bearer token, finds the noyau that the caller is bound to, and nucleates, tags,
tackles, drains and harvests molecules there.

`src/` is the library: what the adapter decides, with contracts that Verus
proves. `app/` is the program around it: sockets, files, processes and the wire
formats. `tests/` runs the library on concrete values.

## The library

| Module | What it holds |
| --- | --- |
| `pipeline`, `evidence`, `scopes` | the gates that a request passes, in order, and what opens each |
| `nucleon_map`, `keyed`, `order` | who is bound to which noyau, and the seals of the bindings |
| `provisioner`, `portee`, `reload` | changing the bindings of a running adapter |
| `routes` | one module per group of routes: its plan, its rules, its replies |
| `surface` | the table of routes |
| `oauth_discovery` | the document that tells clients where to log in |
| `phone_home`, `preflight`, `rate_limit`, `metrics` | reports of clients, checks before a worker starts, buckets, counts |
| `error`, `jwt`, `tenant` | refusals, verified tokens, where a tenant lies |
| `text`, `numbers`, `paths`, `json`, `digest`, `clock` | what the rest is written with |

A route is a plan: a list of stages that ends in an answer. `pipeline::Run` goes
through it. The program shows the run what it found, the run decides, and an
effect is performed only where the run has come to it.

Proof functions named `law_*` state what holds of the library as a whole: that no
stage is skipped, that bindings are pinned to their audience, that an edit on
disk breaks a seal, that a noyau runs one drain at a time.

Functions marked `external_body` call outside crates. The comment above each says
which function it calls and what is taken on trust of it.

## The configuration

`rpp.toml` has to name three things of the deployment: `login_vendor`, the vendor
whose login the adapter serves; `credentialed_adapters`, the adapters whose workers
need that login; and `agent_document`, the file with the block for the tenant's
agent. The routes of the login and of the block are always served, under these
names. Everything else in the file has a default.
