# Tracker

*Tracks when polkadot-sdk pull requests reach downstream runtimes and go live on-chain.*

Tracker follows releases, the crates that downstream runtimes lock, and the runtime upgrades that are enacted
on-chain. It annotates a GitHub Project with the release tags of each pull request and its deployment status in
each runtime:

| Status | Meaning |
|--------|---------|
| *(empty)* | Crates not yet picked up downstream |
| `pending > v{spec}` | Picked up, spec version not yet bumped |
| `pending v{spec}` | Spec bumped in code, not yet enacted on-chain |
| `v{spec}` | Live on-chain |

Partial adoption is shown as a suffix, e.g. `v1002300 (2/3 crates)`.

## Layout

`src/` holds the logic as a library whose contracts are proved with Verus:

- `state`, `collections`: what is known of releases and runtimes
- `project`: which crates brought a pull request, and its status in a runtime
- `plan`: which pull requests to annotate, with which tags
- `annotate`, `graphql`: the calls that annotate a project, one response at a time
- `github`: requests to GitHub, rate limits and errors
- `runner`, `pipeline`, `summary`: the steps of a run, what each makes dirty, and the report
- `json`, `text`: JSON documents and text

`app/` is the program around it: arguments, files, HTTP and the collector. `tests/` runs the library.

The collector is a separate program, named by `--collector` or `TRACKER_COLLECTOR`, that resolves releases, parses
the sources of the runtimes and asks the chains. It reads a request from its standard input and writes a report
to its standard output, both as JSON; `app/records.rs` gives their shape.

## Usage

```bash
# Run the full pipeline
GITHUB_TOKEN=xxx tracker --sdk-repo /path/to/polkadot-sdk

# Preview without modifying state or GitHub
GITHUB_TOKEN=xxx tracker --sdk-repo /path/to/polkadot-sdk --dry-run

# Show per-PR annotation details
GITHUB_TOKEN=xxx tracker --sdk-repo /path/to/polkadot-sdk --verbose
```
