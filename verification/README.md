# modelsocket

A client for the ModelSocket protocol, in two parts.

- `src/` is the library, verified with Verus. It holds the wire types, and
  the decisions a client makes: which pending open, command, generation
  stream or embedding batch an event from the server answers, what each
  answer is, when a sequence is closed, which tool a tool call names, the
  prompt that describes a toolbox, the text a generation produced, and the
  WebSocket upgrade request. The connection state (`ModelSocket`) and the
  state of each sequence (`Sequence`) never wait or send: every operation
  returns the requests to send and the replies to deliver.
- `app/` is the asynchronous client around it: the WebSocket transport, the
  JSON encoding of the wire types (serde), the reply channels, the toolbox
  callbacks, and the Python bindings.

Floating-point values (sampling parameters, embeddings) travel through the
library as the bit patterns of their `f32` values; `app/` converts them.
