# Prognosis

Prognosis is a coding agent that lives in the terminal. This crate holds its logic as a Verus library:
every function of `src/` has a contract, and Verus proves that the code keeps it.

## Layout

| Path | What it holds |
|---|---|
| `src/text.rs`, `src/number.rs`, `src/order.rs` | texts as sequences of characters, numbers by their bits, sorting |
| `src/json.rs`, `src/encoding.rs`, `src/pattern.rs` | JSON values, bytes as text, regular expressions |
| `src/adapter/` | requests and replies of language models, their wire forms, errors, retries, streams |
| `src/app/` | the agent: tools, the supervisor, rules and skills, sessions, models, scheduled tasks |
| `src/frontend/` | the state of the screen, keys, commands, Markdown, and what is drawn |
| `src/runtime.rs`, `src/util.rs` | the types of the cognitive runtime, small helpers |
| `app/` | the program around the library: files, the network, the terminal |
| `tests/` | tests on concrete values |

## What is proved, and what is trusted

Contracts speak of mathematical values: a text is a `Seq<char>`, a type of the library has a view. Laws
that relate several functions are public proof functions; their doc comments state them in words.

What comes from other crates or from the standard library stands behind small functions whose bodies
Verus does not read. Each says in its doc comment which function it calls and what is taken for granted
of it. Where the result of such a call cannot be stated in a few lines it has a name, and the logic that
follows the call is a function of its own that takes the result as an argument.
