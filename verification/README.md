# s2s_vulkan

A speech-to-speech service: a recogniser, a language model and a synthesizer are
run behind one server, on whatever accelerator the machine has. The rules of the
service are a library whose contracts Verus proves; the program around it moves
bytes.

## Layout

- `src/` is the library. The catalog of backends and the resolution of their
  variants are in `registry`, hardware detection in `gpu`, the activation of a
  stack with bring-up, rollback, failover, parking and recovery in `activation`,
  `bring_up`, `recovery`, `failover`, `parking` and `containers`, downloads and
  modules in `download`, `digest` and `modules`, and the turns of a conversation in
  `stt`, `llm`, `sentences`, `tts`, `playout` and `pcm`. The server's requests and
  answers are in `api`, `gateway`, `realtime` and `lab`.
- `app/` is the program: arguments, HTTP, web sockets, files, audio devices and the
  loops that carry out what the library decides.
- `tests/` runs the library on concrete values.

Work that needs the outside world in between is a state machine: a `phase` says
what to do next, and `step` takes the reply. Floating-point values cross into the
library as their bits or as integers.

Functions whose names begin with `law_` state what holds of several functions
together. The calls into other crates stand in `json`, `digest`, `wav`, `api`,
`realtime` and `benchmark`, each with a comment on what is believed of it.
