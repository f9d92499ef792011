# codex-auth

A command line tool that manages the accounts Codex signs in with, and switches between them. It
keeps a registry of accounts and a snapshot of the auth file of each, below the home directory of
Codex (`CODEX_HOME`, else `~/.codex`):

- `auth.json`, the file that Codex signs in with
- `accounts/registry.json`, the registry
- `accounts/*.auth.json`, the snapshots
- `sessions/**/rollout-*.jsonl`, the session logs, from which usage is read

What the tool decides and computes is a library, verified with Verus. What it reads, writes, asks and
prints is a program around that library.

## Commands

```text
codex-auth list                       the accounts, grouped by email
codex-auth login [--device-auth]      run `codex login` and add the account
codex-auth import <path> [--alias a]  import auth files
codex-auth import --cpa [<path>]      import CPA files
codex-auth import --purge [<path>]    rebuild the registry from auth files
codex-auth switch [<query>]           sign in with another account
codex-auth remove [<query>] [--all]   remove accounts
codex-auth status                     settings, active account and its usage
codex-auth clean                      delete snapshots of unknown accounts
codex-auth config auto ...            automatic switching and its thresholds
codex-auth config api enable|disable  whether the ChatGPT API may be asked
codex-auth daemon --once|--watch      switch when the active account runs low
```

While the API may be asked, the usage of the active account comes from it, and from the session logs
where it does not answer; `list` also brings the names of accounts up to date. Once it is switched
off, usage comes from the session logs alone.

## Layout

- `src/`: the library
  - `model`, `registry`, `laws`: accounts, what can be done with them, and what holds whatever is done
  - `auth`, `json`, `encoding`: auth files and the tokens in them
  - `schema`: registries of every supported version
  - `import`, `sync`: auth files into accounts, and the registry in step with the active one
  - `sessions`, `chatgpt_api`: usage, from session logs and from the API
  - `files`, `paths`, `clock`, `text`: file names, backups, times and strings
  - `cli`, `commands`, `display`: what is asked, decided and shown
- `tests/`: tests of the library
- `app/`: the program

Percentages are floating-point numbers in files and answers. The library holds their encoding and the
rounded remainder that decisions are made on; the program converts.
