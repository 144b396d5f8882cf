# my-agent

A small coding agent that runs as a daemon in a workspace and is talked to from a terminal, an
editor, a browser or an OpenAI-compatible client. The rules of the agent are a Verus library: each
function says in `requires` and `ensures` what it does, and Verus proves it.

## Layout

| Where | What |
| --- | --- |
| `src/text.rs`, `src/json.rs` | Text and JSON documents, with their models |
| `src/provider.rs` | Messages, tool calls and model profiles |
| `src/config.rs` | The environment, the configuration file and its profiles |
| `src/context.rs` | What a model is sent: token estimates, compression, summaries |
| `src/loop_engine.rs` | A turn: rounds, tool waves, repetition and failure limits |
| `src/trace.rs` | What a session keeps of a turn: requests, answers and tool calls |
| `src/cron.rs` | Scheduled jobs |
| `src/daemon/` | The daemon: protocol, sessions, turns, questions, commands, audits |
| `src/entry/` | The ways in: command line, editor, HTTP and WebSocket, terminal interface |
| `tests/` | Tests of the library |
| `app/` | The program: arguments, files, sockets, the screen |

The library does no input or output. Where a decision depends on what was read or on what an
outside service said, it is a function from that value to the next step, and `app/` performs the
step.

## Laws

Public proof functions named `law_..` state what holds across functions: that a replayed turn is a
suffix of what was told, that a page of a long session makes progress, that a cancelled request
leaves other requests alone, that every message is answered once, and so on. Each says in its
documentation what it means.

## Trust

What other crates compute is called through small functions marked `external_body`. Their
documentation names the outside function and says what is believed of it. Results that take pages
to describe have a name, a spec function without a body, and the contracts of the callers speak of
that name.
