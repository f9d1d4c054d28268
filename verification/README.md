# trillium-frontend

A [Trillium](https://trillium.rs) handler for JS frontend projects, written and proved in
[Verus](https://github.com/verus-lang/verus). A project is served in one of three modes, told by the
`dev-proxy` feature and by whether its sources (`package.json`) are there:

| dev proxy | sources | mode |
|-----------|---------|------|
| yes | yes | dev-proxy: the project's dev server is started, and requests are forwarded to it |
| no | yes | build: the project is built at compile time, and its output is embedded |
| any | no | prebuilt: output that is already there is embedded |

```rust
frontend!("./client")
    .with_client(Client::new(ClientConfig::default()))
    .with_index_file("index.html")
```

The index file is served for a directory, and for any path that no embedded file has.

## Layout

- `src/` is the library. It decides everything: what the macro's arguments mean, which package
  manager and framework a project uses, which of its files are inputs of a build, whether a build is
  due, what the macro expands to, and what is done with a request. It touches nothing itself: it asks
  for an action, and is told what came of it.
- `app/` performs the actions: it reads directories, runs commands, holds the dev server's process,
  and implements Trillium's traits.
- `tests/` runs the library on examples.

## What is proved

Every function in `src/` has a contract. Beyond that, functions named `law_...` state what holds of
the library as a whole, among them:

- An expansion comes to an end whatever it finds, and its mode decides what it runs and what it
  expands to (`course`).
- Expansions of one project take turns; within a run of cargo a project that has not changed is built
  once, one that has changed is built again, and so is one whose last build failed (`course`,
  `stamp`).
- No build triggers the next one: neither its output nor a directory that leads to it is tracked
  (`sources`).
- The build script reads the paths that the macro wrote (`manifest`).
- Arguments are read as they were written (`args`).
- Of the embedded files, the index file is served for what is missing, then the fallback (`handler`).
- The dev server is given a second to come up (`handler`).

What is taken from other crates is declared in `src/outside.rs`, with contracts that are trusted.

## Limits

- Two states of a file are told apart by its length and its modification time.
- Within one run of cargo, a build is done without where its command, its output directory, its tracked
  sources and its output are those of the last build. What else may go into it - environment variables,
  dependencies, files behind symbolic links - is not looked at. Another run of cargo that expands the
  macro builds in any case. A run is told by the process id of the compiler's parent, so a compiler that
  is started through a wrapper of its own builds too; on Windows, by the name of cargo's job server.
- A path with a line feed in it, or a carriage return at its end, is not read back from a manifest.

## Dependencies

Nothing here calls `trillium-http` or `trillium-server-common`. Their lines in `Cargo.toml` hold these
two, on which the other Trillium crates depend, to versions that fit together and compile with
Rust 1.95.
