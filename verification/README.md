# nativechat

The client side of NativeChat's conversation with an OpenGrok server, with its
decisions stated as contracts and proved by Verus.

- `src/` is the library. Every function there is verified: the AG-UI frame
  readers that assemble a turn (`gen_ui`, `activity`, `user_form`,
  `credential`, `pending`, `timing`), the request bodies and reply verdicts
  (`requests`), the session rules (`session`), the error kinds (`error`),
  the local-exec daemon's decisions (`local_exec`), the send policy, the
  reachability backoff and the preferences. JSON is the library's own
  `json::Json`; the few calls into serde_json, base64 and std that the logic
  needs are wrappers whose contracts are stated beside them.
- `app/` is the rest: the reqwest client, the session and credential files,
  the daemon's process handling, the serde shapes of the server's JSON, and
  the float rounding of a timing frame's fractional milliseconds, which the
  library's timing reader takes as a table.
- `tests/` runs the library on concrete values.
