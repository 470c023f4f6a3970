# console

The logic of the Xilulu management console, verified with Verus.

- `src/` — the library: the rule-based intent parser, the conversation
  state machine, the execution of confirmed intents as a state machine,
  request paths and query strings, the service client's decisions, the
  module registry, the skill store, the organisation tree of the atlas
  view, and the smaller decisions of the pages (palette, cockpit, people,
  sign-in, themes). Each public function carries its contract; the
  properties that relate several functions are public proof functions
  named `law_*`.
- `tests/` — tests on concrete values.
- `app/` — the browser side: HTTP through `gloo-net`, the chat-completion
  request, local storage, the clock, the JSON forms of the service types,
  and the floating-point layout of the atlas.
