# app_versions

An update server for applications: it stores applications and their versions
in SQLite, tells clients the latest version, lists versions newest first,
serves the file attached to a version, and offers password-protected admin
requests to add applications and versions, set the latest version and upload
files.

- `src/` is the verified library: reply formats and error replies, JSON
  framing, the admin password gate and access-code checks, the reading of
  admin request bodies, version precedence and the sorted version list,
  configuration loading, file plans, and the decisions and replies of every
  route.
- `app/` is the server around it: afire routes, database queries, file reads
  and writes, and the conversion of the library's replies into HTTP responses.
  Where a request cannot be served at all (a malformed admin body, a bad
  configuration), the library returns an error and the server stops there.
- `tests/` runs the library on concrete values.

Choices this project makes for itself:

- An application with an access code is only shown to requests that send
  that code in an `access` header; otherwise they are answered "No access
  code" or "Invalid access code".
- The table schemas and the statement that adds a version are written in
  `app/state.rs` and `app/admin.rs`.
- Every admin route is served, adding an application included.
