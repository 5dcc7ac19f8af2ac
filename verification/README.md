# drata_cli

A command-line client for the Drata compliance API, written in Verus.

- `src/` is the verified library, checked by Verus: its functions carry
  `requires` / `ensures` contracts. It decides what each `drata` command
  sends (method, path, JSON or multipart body, confirmation) and how answers
  are read (pagination, retries, API error messages, tables, `--example`
  skeletons), and holds the credential and configuration rules.
- `app/` is the `drata` binary: argument parsing with clap, the credentials
  file, environment variables, HTTP with reqwest, prompts, paging and
  logging. It hands the library plain values and acts on what it returns.
- `tests/` runs the library on concrete inputs.

The `--example` skeletons are generated from the Drata OpenAPI document,
which the binary reads from `spec/drata-openapi-v2.json` (or the path in
`DRATA_SPEC`).
