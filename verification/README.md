# pixi_experimental_backends

The decisions of a family of pixi build backends (Autotools, Bazel, Go,
Gradle, Make, Node.js and a Hugging Face kernel repackager), written as a
Verus library whose functions carry contracts that Verus proves.

- `src/` is the verified library: configuration merging, recipe
  requirements, build-script parameters, input globs, `go.mod` and
  `package.json` metadata, and, for the kernel backend, variant-name
  parsing, the mapping of variants onto conda records, the reading of Hub
  tree listings and `build.toml`, and the planning of outputs and builds.
  Calls into `indexmap`, `toml` and `rattler_conda_types` stand behind a few
  trusted wrappers whose contracts are stated in their doc comments.
- `tests/` exercises the library through its public API.
- `app/` is the program around it: argument handling, the JSON-RPC backend
  plumbing, file and network I/O, serde copies of the configurations, and
  the rendering of build-script templates.
