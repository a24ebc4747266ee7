# wick_components

The logic of a collection of Wick components (HTTP middleware, JSON and XML shaping,
templating, text matching, stream framing, URI parsing and more), written in Verus with
contracts that state what each operation answers.

- `src/` is the verified library. Each module holds one area: `http` (headers, requests,
  responses), `http_auth`, `http_headers`, `oauth`, `auth_flow` (the order of the OAuth
  callback's and logout's outside calls, as step functions), `cookies`, `client_ip`, `assets`
  (the OpenAPI UI server), `json`, `json_text` (JSON texts read level by level with serde_json)
  and `object` (JSON values and the object operations),
  `path_literals` (the JSONPath forms that the selector can evaluate),
  `xmljson`, `matching` (regular expressions and redaction), `globs`, `templates`,
  `completion`, `stargazers`, `usps`, `uri`, `unzip`, `framing` (bracketed streams),
  `handlers` (hmac and csv packets), `llama`, `infer`, `yolo`, `strings`, `text` and
  `numbers`. Calls into outside crates stand behind small trusted functions in each module,
  whose doc comments say what their contracts claim.
- `tests/` runs the library on concrete values.
- `app/` is the edge around it: conversions to and from `serde_json::Value`, the archive
  reading of the unzip operations, the loops that run the library's step functions, and the
  reading and sending that the library leaves to its caller.
