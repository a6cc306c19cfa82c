# release_plz_core

The decisions behind automated Rust releases, verified with Verus: the order in which the
packages of a workspace are published, what a release pull request contains and when it is
edited, which commits go into a changelog, how versions of grouped packages are chosen, how a
local package is compared with its published copy, and the URLs of the git hosts' APIs.

## Layout

- `src/` — the verified library. Each public function states in `ensures` what it returns;
  the laws that relate several functions are public proof functions named `law_*`.
  Calls into outside crates (`regex`, `url`, `git-url-parse`, `parse-changelog`,
  `cargo_metadata`'s `semver`, `chrono`) go through small trusted wrappers whose contracts
  name their results.
  - `release_order` — publishing order of the workspace packages, with cycle detection.
  - `next_ver`, `update_request`, `diff`, `lock_compare`, `package_compare` — what the update
    decides for each package.
  - `command/` — release, release pull request and set-version requests.
  - `git/`, `pr`, `pr_parser`, `repo_url` — pull requests, labels and git host endpoints.
  - `changelog*`, `contributors` — changelog parsing and the data the template reads.
  - `text`, `overrides`, `order` — string, map and order helpers with their specifications.
- `tests/` — tests of the library on concrete values.
- `app/` — some of the edges: reading lockfiles and changelogs, the CI token check, the
  conversion of cargo metadata, running `cargo package` to compare a local package with its
  published copy, and the wait for a publication. The git host requests, cloning and
  downloading, and the release, release pull request and set-version commands have no driver
  here: the crates they need (an HTTP client, an async runtime, git and cargo helpers, the
  registry index) are not part of this project's dependencies.
