# htrs

An HTTP command-line client for calling services across several environments
(production, staging, development, ...). A service has environments (hosts)
and endpoints (path templates with `{parameters}` and query parameters);
headers can be set globally, per service or per environment, the most specific
scope winning.

## Layout

- `src/` — the library, verified with Verus:
  - `config.rs` (and `config/`): the configuration model, its lookups by name
    or alias, the older layouts and the migration from the first versioned one;
  - `string_map.rs`: the insertion-ordered string table used for headers,
    preset values and query parameters, whose view is a `Map`;
  - `commands/`: every command (`new`, `edit`, `delete`, `list`, `view`,
    `set`, `call`), each with an `outcome` relation between the configuration
    before, after and the result, which `execute` is proved to meet;
  - `request.rs`, `common.rs`, `text.rs`: URL building, path-template
    parameters, `key=value` parsing and string helpers;
  - `laws.rs`: properties that span commands (names and aliases stay unique,
    at most one default environment, header precedence, query-argument
    overrides, deleting undoes creating, ...).
- `app/` — the program: command-line parsing with `clap`, reading and writing
  the JSON configuration file, and sending requests with `reqwest`.
- `tests/` — tests of the library on concrete values.
