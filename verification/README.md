# rls_build

How a language server builds a crate with the Rust compiler.

`src/` is a Verus library. It holds what is decided and computed around one run of the compiler:

- `compilation`: in which process the compiler runs, what follows when that fails, and what the
  build reports;
- `command`, `environment`, `config`: the arguments and variables of a run;
- `loader`: files that are read from memory in place of the disk;
- `source_map`, `crates`: which files a crate is made of, and which crates a file is part of;
- `path`, `path_text`: source paths, and the text of paths that need not be Unicode;
- `table`, `text`, `shared`, `sysroot`: tables, text, shared values, and where the compiler's
  libraries are.

Each function states in its contract what it returns. Public proof functions whose names begin
with `law_` state what holds between functions.

`app/` does the rest: it reads the environment, starts processes and calls the compiler. The
compiler's own crates come with a toolchain; `app/compiler.rs`, which calls them, is compiled with
`--cfg rustc_private` on the toolchain that ships them.
