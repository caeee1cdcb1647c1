# kremory

The core of a temporal-graph memory engine, written in Verus: executable Rust whose
behaviour is stated in contracts and proved.

- `src/` — the library. Each module's rules are spec functions; each public function says
  in its contract what it returns or changes, and public proof functions named `law_*`
  state what holds of several functions together.
- `tests/` — the library on concrete values, with the outside crates linked. Some run a
  merge against an in-memory database.
- `app/` — ordinary Rust around the library: the worker thread, the database, the model
  providers, metrics, and all floating-point arithmetic.

## How the library talks to the world

A step that waits for the outside is split in two. The library hands out a request
(`MergeRequest`, `VerifyRequest`, `WorkerRequest`, ...), `app/` performs it, and the reply
goes back into `step`. The order of the steps, what happens on each failure and what is
reported are thereby part of the proved library.

Floats are held by their bit patterns (`ieee`): comparing, clamping and ordering them is
decided on integers and proved, computing with them is left to `app/`.

## What is trusted

Calls into other crates stand behind small functions whose contracts are believed:
`serde_json` for two operations on JSON, `base64` for binary columns, `text-splitter` for
chunks, `dashmap` for the set of warnings already given, `autoagents-llm` for the variants of a
provider's error, `uuid` for run identifiers, and a few functions of the standard library
on time and strings.
