# mcp_scanner

The verified core of a repository scanner that gives AI agents context about
a git repository: which technologies it uses, which Terraform resources it
declares, and which file-naming convention dominates.

- `src/` is the library, verified with Verus:
  - `config`: configuration from an environment snapshot, with defaults and
    exact errors;
  - `number`: unsigned decimal parsing (the standard library's rules) and
    formatting;
  - `analyzer`: technology detection, naming-convention votes, and the
    analysis of the files a tree walk found;
  - `terraform`: the `resource "TYPE" "NAME" {` headers of a Terraform file;
  - `cloner`: the decisions of a clone (shallow first, full fallback, commit
    checkout) as a state machine, and the timeout outcome;
  - `models`, `error`, `text`: request/response types, errors, strings.
- `app/` is the service around it: environment, HTTP health endpoints, the
  directory walk, the git work of a clone, and the serde forms of the types.
- `tests/` runs the library on concrete inputs.
