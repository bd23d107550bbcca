# gt — a Gitea command line, with its logic verified

`gt` manages issues, pull requests, repositories, releases, Actions runs and
runners, and more on a Gitea instance, in the manner of GitHub's `gh`.

The crate is split in two:

- `src/` is the library, verified with Verus. It holds what the commands
  decide and compute: parsing `owner/repo` arguments and git remote URLs,
  loading the configuration, editing the `[aliases]` table of the config
  document, the `--json`/`--jq` selection, the `gt api`
  request pieces and `curl` rendering, pagination, the interactive issue
  flow, the runner deletion flow, the `run watch` redraw and exit code, the
  credential helper, HTTP transcripts with masked credentials, and every
  table and detail view the commands print. Each public function states its
  result in its contract; the `lemma_*` proof functions state the laws that
  relate several functions.
- `app/` is the program around it: argument parsing with clap, the HTTP
  client, the terminal prompts, files and processes. It converts the
  server's JSON into the library's types and prints what the library
  returns.

`tests/` exercises the library on concrete values.
