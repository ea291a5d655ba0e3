# Kensho

Autonomous local-AI desktop companion. A floating character is driven by a local
model; it answers, runs tools, keeps tasks and an agenda, and reminds the user of
deadlines.

`src/` is a library of decisions, each with a contract proved by Verus. `app/` is
the program around it: it reads, writes, waits and shows.

```
src/
  actor/            from the model's token stream to visible text, speech and tool calls
    stream_filter     takes tool calls out of the stream
    sentence_buffer   cuts visible text into sentences to voice
    generation        one answer: cycles of inference, hard-capped
    answer            what holds of an answer as a whole
    heartbeat         which deadlines to alert the user to
  services/         conversation window and ChatML, tools, approvals, clipboard, prompts, MCP
  domain/           tasks, events, tickets, notes, ids and instants
  infrastructure/   database rows and migrations, engines, voice, notifications
  config, commands, error, json, text
```

A stream may be cut into tokens anywhere: what is shown, voiced and carried out
depends on its text alone (`law_stream_is_its_text`, `law_speech_is_its_text`,
`law_cycle_is_its_text`). An answer takes three cycles at most and ends with the
character idle (`law_cycles_are_capped`, `law_answer_ends_idle`).

What is taken as given of chrono, uuid, serde_json and the standard library stands
beside the functions that call them: `domain/time.rs`, `domain/ids.rs`, `json.rs`,
`text.rs`, `services/tools.rs` and `infrastructure/llm.rs`.
