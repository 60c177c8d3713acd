# elizaos

The runtime of an agent, as a library of verified Rust.

`src/` holds what the runtime is and decides, with contracts that Verus proves:

- `runtime`, `run`, `dispatch`, `bootstrap`: the runtime itself: how it is made and
  initialized, what is registered with it, its settings, runs and tasks, what it runs
  for a message, and which model it asks.
- `settings`, `character`, `models`, `actions`, `evaluators`, `compose`, `tasks`,
  `trajectory`, `log_level`: the rules that it follows.
- `prompt_text`, `prompt_check`, `prompt_exec`, `xml`, `json`: prompts that ask for
  structured answers: how they are written, how answers are read and checked, and
  when the model is asked again.
- `text`, `rewrite`, `letters`, `string_map`, `supply`, `clock`: what these stand on.
- `runtime_laws`, `prompt_laws`, `answer_laws`, `xml_laws`: what holds of them together.

Handlers, services and databases are handles to the library. `app/` knows what the
handles stand for: it calls handlers, awaits models and databases, and logs.

`tests/` runs the library on given values.
