# agentgateway

The decisions of an AI gateway, with their behaviour stated in contracts and proved by Verus.

- `src/conversion` reshapes the stream of a web-search sidecar into OpenAI Chat, Anthropic
  Messages or OpenAI Responses, meters it, and turns unreadable error bodies into messages.
- `src/llm` detects web-search tools in a request, decides on their reroute, makes usage reports,
  and chooses endpoints.
- `src/http` holds the retry, sticky and capacity policies and the health prober.
- `src/store` remembers pins and token budgets.
- `src/json.rs`, `src/text.rs`, `src/clock.rs` and `src/target.rs` are what these share.
- `app` is the ordinary Rust around the library: clocks, tasks, sockets and configuration files.
- `tests` runs the library.

Calls into other crates stand behind a few trusted functions, each of which says what it takes
for granted of the call. Proof functions whose names begin with `law_` state what holds of the
library as a whole.
