# reqforge

The core of an HTTP client workspace — requests, collections, environments,
templates, history, importers for Postman and OpenAPI documents, and the state
of the editor panels — written in Verus with its behaviour stated in contracts
and proved.

- `src/` is the verified library. Each module states its model in spec
  functions and views; laws that relate several operations are public proof
  functions named `law_*`.
- `app/` is the `reqforge-cli` program around it: argument parsing, files,
  JSON and zip formats, and sending requests over HTTP.
- `tests/` runs the library on concrete values.
