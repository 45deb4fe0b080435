# dopbase

The client side of Dopbase, a self-hosted secrets manager, as a Verus crate:
the logic of the `dopbase` command line is verified, and a thin program
around it does the I/O.

## Layout

- `src/` — the verified library.
  - `commands/cache/` — the encrypted runtime cache that `dopbase run` falls
    back to: the cache document (sorted records, eviction of the oldest past
    sixteen), the sealed file format, key derivation, listing, cleaning and
    removal, and `CacheAge`.
  - `commands/run/` — which environment a run uses, the checks on runtime
    entries, the choice between live secrets and the cache, and what a run
    reports.
  - `commands/client.rs` — `client connect` as a sequence of steps, and the
    status report.
  - `commands/environment.rs` — `env clone` as a sequence of requests that
    removes the new environment again after a failed copy.
  - `commands/admin.rs` — factory reset: host checks, paths, and the reset as
    a sequence of file operations that puts the data back when the backup
    cannot be written.
  - `commands/init.rs`, `secret.rs`, `transfer.rs`, `auth.rs`, `server.rs`,
    `prompt.rs`, `output.rs` — the other commands' checks and text.
  - `client.rs`, `api.rs`, `args.rs` — credentials, request text, API paths,
    the command line and its routing.
  - `crypto.rs`, `models.rs`, `paths.rs` — thin calls into the cipher, hash,
    calendar and path libraries, each with the contract the library relies
    on.
  - `text.rs`, `order.rs` — numbers, counted labels, joining and searching
    text, string order.
- `tests/` — tests of the library on concrete values.
- `app/` — the program: the command line for clap, the cache files, a small
  HTTP client, and the commands built on the library.

## What the program does not do yet

The library holds the checks and decisions of the commands, but the program in `app/` runs only
`client status`, `cache list`, `cache clean`, `project`, `token`, `env`
(without `env default` and `env clone`), `secret` (with the password
confirmation before `secret get --reveal`) and `run`. `run` injects the
secrets of the environment as the encrypted cache holds them (the fetch of
live secrets needs the runtime endpoint, which is not part of this crate),
and starts the child without `DOPBASE_TOKEN`. It refuses the other commands with an error, because
the parts of Dopbase they stand on are not part of this crate:

- signing in and the saved session (`login`, `logout`, and any command that
  would sign in first): the only credential the program reads is
  `DOPBASE_TOKEN`;
- the saved client configuration (`client connect`, the saved server, the
  default environment) and the recent-authentication step `env clone` takes
  before it creates anything;
- the local server and its background process (`server`, the server's
  configuration, `admin factory-reset` and `admin reset-password`, which
  also need the database);
- the secret file formats (`init`, `import`, `export`, `backup`, `restore`).

The HTTP client speaks plain HTTP only.
