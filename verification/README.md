# openai_responses

A client for the OpenAI Responses API whose logic is verified with Verus.

- `src/` is the library: JSON values (`json`), conversations and their items
  (`types`, `messages`), requests (`request`), whole responses (`response`), and
  streamed ones (`stream`, `state`, `events`). `laws` states what holds across
  functions, such as that it makes no difference how a stream is cut into chunks, as
  long as the lines after the mark for its end hold nothing to read.
- `app/` talks HTTP: it posts the requests, waits for the bytes, tells subscribers,
  and weighs tokens in floating point.
- `tests/` runs the library on concrete values.

JSON texts are read and written by `serde_json`. The contracts call what it makes
of a text `json_read` and what it writes `json_text`.
