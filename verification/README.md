# nemo-relay-memory

Provider-neutral memory for agent runtimes, with contracts that Verus proves.

The library under `src/` decides; it holds no clock, no task and no connection. It validates
requests, ranks records, admits and retires queued work, prepares and completes managed calls, and
says what may be told of all that. The crate under `app/` is ordinary Rust around it: asynchronous
providers, deadlines, the background worker, the managed-call hook, serialization, and the Node.js
and Python bindings.

## Layout of `src/`

| Module | What it holds |
| --- | --- |
| `memory`, `error`, `time`, `json` | The data of memory operations, and their validation |
| `text`, `double`, `wire`, `equality` | Text, fractions as doubles, JSON forms, and equality of memory data |
| `in_memory` | The deterministic reference provider |
| `runtime`, `provider` | Admission and deadlines of provider operations |
| `work`, `work_queue`, `queue_laws` | The bounded queue, its jobs, and what holds of it |
| `maintainer` | Derivation of memories from a source window |
| `automatic`, `prompt` | Selection, injection and recognition of recalled memories |
| `metadata`, `component`, `component_laws` | Managed calls, from preparation to write-back |
| `evidence` | References, hashes and lengths that stand for content |
| `conformance` | The acceptance run for providers |
| `plugin`, `installation` | Configuration and handles of installed components |
| `laws` | What holds across these parts |

## How contracts are written

Every type has a view: a plain mathematical value. A function's contract relates views, most often
by saying that its result is that of a specification function on the views of its arguments.
Failures are part of that value, down to their messages. State machines are functions from a state
and an event to the next state and an action.

Proof functions that are public state laws: what every operation keeps, what one undoes of another,
and what never happens.

## What is not proved

`serde_json` holds JSON values and objects, `sha2` computes digests, and the standard library
classifies characters. Each such call stands behind one small function or declaration whose comment
says what is claimed of it.
