# rack

Rack runs local development servers behind `<name>.localhost` URLs, routes
requests to WASM functions, and runs their crons. This crate is its core,
written in Verus: every function in `src/` carries a `requires`/`ensures`
contract that Verus proves.

## Layout

- `src/` — the verified library.
  - `text`, `json`, `sorted_map`: strings, JSON values and a sorted map, with
    their mathematical views.
  - `config`, `ipc`, `command`: the server configuration, the IPC requests of
    `rack dev`, and the dispatch of core commands.
  - `routes`, `proxy`: the route table behind `*.localhost` and host parsing.
  - `functions/`: function manifests, glob routes, responses and logs.
  - `process`, `readiness`, `project`, `dev_commands`, `bridge`: how a server
    is launched, how its port is found, and how a project is named and run.
  - `schedule`, `scheduler`: cron expressions, calendar runs and the
    scheduler's state between ticks.
  - `cli`: what the `rack` and `rack-bridge` command lines decide and print.
  - `sdk/`: the SDK that functions are written with.
  - `handler`: what the `route` and `cron` attributes decide from a
    handler's signature.
- `app/` — the program around the library: files, sockets, processes,
  threads, clocks and the FFI entry points. It makes no decision the library
  could make.
- `tests/` — tests of the library on concrete values.

The configuration is TOML, at `$XDG_CONFIG_HOME/rack/config.toml` when
`XDG_CONFIG_HOME` is set and at `~/.config/rack/config.toml` otherwise.
