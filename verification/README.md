# escudo

Supply chain audits for Rust projects: fresh crates, banned dependencies,
licenses, duplicate versions, and versions that crates.io does not tell of.

`src/` is the library. It is written in Verus: every function states what it
returns, and Verus proves it of all but the few that call other crates.

| Module | What it holds |
|--------|---------------|
| `audit` | the audit: from packages and publish dates to a report |
| `metadata` | packages, their sources, and crates in several versions |
| `policy`, `license` | the policy rules, and the meaning of license expressions |
| `freshness`, `plan`, `http` | the cooldown, the cache, and the requests to crates.io |
| `report`, `error` | the renderings of a report, and the messages |
| `upgrade`, `cli`, `config` | the decision on an upgrade, the command line, the configuration |
| `time` | points in time; calendar work is left to `chrono` |
| `text`, `order`, `numeral`, `select` | what the rest is built from |

Beside the contracts stand the laws of the library, as public proof functions:
that a clean audit vouches for every crates.io package, that no crate is
skipped, that cached versions are used, what license expressions mean.

What is taken on trust is marked in the source and described there: what
`chrono` makes of dates, and how `reqwest` shows a status code.

`app/` is the program around the library: arguments, files, requests, output.
`tests/` runs the library.
