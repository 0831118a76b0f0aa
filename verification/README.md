# dev-server-proxy

A small HTTP proxy for web development (`dsp`), whose decisions are verified
with Verus.

- `src/` is the verified library: nginx-like location matching
  (`matcher`), regex path rewriting (`rewrite`), target URL construction and
  HTML injection into replies (`proxy`), where a request is forwarded or
  what it is answered (`server`), the log line
  format and log levels (`logger`), the command-line decisions and the log
  tail (`cli`), and the configuration types (`types`). Regular expressions
  and URL parsing are done by the `regex`, `url` and `http` crates, behind
  the trusted items of `pattern` and `proxy`.
- `app/` is the program: argument parsing with clap, configuration loading
  with serde (JSON or TOML), the hyper/tokio server that forwards requests
  over HTTP/1, and file and console logging.
- `tests/` exercises the library.
