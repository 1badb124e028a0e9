# npm_resource

A concourse resource for npm packages: `check` looks in a registry for new
versions of a package (by dist-tag, or every version from the last one seen
when the tag is `semver`), `in` fetches and unpacks a version's tarball, and
`out` publishes a package (a tarball or a directory, with its version and name
optionally overridden) or points a dist-tag to an existing version.

Layout:

- `src/` — the library, verified with Verus: package manifests and version
  selection (`npm/npm.rs`, `resource/resource.rs`), package.json and tarball
  descriptions and the publish document (`npm/package_json.rs`,
  `npm/package_tar.rs`, `npm/publish.rs`, `resource/concourse.rs`), registry
  urls and authentication (`npm/registry_client.rs`, `utils/basic_token.rs`),
  package name forms (`npm/package_name.rs`), tarball entry paths
  (`utils/tar.rs`), integrity strings
  (`utils/integrity.rs`), and the models they share (`json.rs`, `version.rs`,
  `assoc.rs`, `text.rs`, `codec.rs`).
- `app/` — the program around it: reading the payload, files and tarballs,
  and talking to the registry.
- `tests/` — tests of the library.
