# bad_frpc_launcher

A desktop launcher for the frp client (`frpc`): it edits `frpc.toml`
through a simple form or a raw editor, starts, stops and restarts
`frpc.exe`, and shows the child's output as a cleaned, coloured log.

`src/` is the library, written in Verus. Its functions carry contracts
that Verus proves, except for a few trusted calls into std and the `toml`
crate, whose contracts are assumed: `push_char`, `parse_toml`,
`strip_path_prefix` and `path_text`, and `toml_value_into_model`, the
conversion `parse_toml` uses, which has no contract of its own.

- `text` — trimming, ASCII lower case, decimal formatting, `u16` parsing,
  prefix and substring tests.
- `toml_doc` — the part of a TOML document the launcher reads; parsing is
  done by the `toml` crate behind one trusted call.
- `config` — the simple form: its defaults, the TOML it writes, how it
  reads values back.
- `frpc` — cleaning of the child's output lines and the log lines for
  events and exits.
- `log_buffer`, `toasts` — the bounded log and the notification queue.
- `state` — the launcher's state and its transitions for each outcome of
  file, process and clock work.
- `paths`, `palette`, `app_info` — path choices, colours, about texts.

`app/` is the eframe program around the library: window, widgets, files,
the child process and its reader threads.
