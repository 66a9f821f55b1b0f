# translator

A desktop translation assistant that talks to a chat completion service.

- `src/` is the verified library: text operations, language detection, the configuration, the
  conversation with the service, the state of the assistant, and what the display shows of it.
- `app/` is the program around it: the window, the configuration file and the HTTP requests.
- `tests/` holds the tests of the library.

The library calls `serde_json` for JSON string literals. The messages of a streamed answer are
parsed by a function that the program hands in.
