# lambda_cloud

A client library for the Lambda Cloud API, written in Verus.

- `src/` is the library. It is pure: for each call on the service it says which request to send,
  when the command for the API key has to be run, and what the answer comes to. It also holds the
  rules on machine images and instance types. Every function states what it does in its contract,
  and the `law_*` proof functions state what holds across functions.
- `app/` sends the requests over HTTP, runs the commands, reads the environment and turns JSON
  answers into values of the library.
- `tests/` runs the library.

The order of names is the order of Rust strings, by their UTF-8 bytes. White space is the Unicode
`White_Space` property. JSON bodies are held and written by `serde_json`; the text of an HTTP
status is that of `reqwest`.
