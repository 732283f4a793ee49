# rmlx_server

The core of an OpenAI-compatible inference server, written and proved in Verus.

`src/` is the library. Its functions are proved against their contracts; what is
believed without proof, of calls into other crates and the standard library, is
stated in the doc comment of each such call:

- `engine/` — requests and tokens, the thinking-block splitter, image and audio
  prompts, codecs, admission, inter-token latencies, speculative decoding.
- `openai/` — request validation, the steps that take a chat request from its body
  to its model, collected and streamed responses, tool calls, JSON in answers,
  error replies, model lifecycle, metrics.
- `registry`, `session_cache`, `keep_alive`, `retry`, `metrics_drainer`,
  `image_io`, `logged_json` — the parts that those rest on.
- `json`, `text`, `header`, `float32` — values and texts.

Properties that span several functions stand as public proof functions whose names
begin with `law_`.

`app/` is the server around the library: routes, files, tasks, the database. It
performs what the library decides and hands plain values back. Models, templates
and parsers of tool calls come in through traits.

`tests/` runs the library on concrete values.
