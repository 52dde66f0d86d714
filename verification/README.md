# tagger

A tag-based file manager. A tag is a directory of the data directory; a file carries a tag
when a symbolic link to it sits in the tag's directory. Tags can be added (also under a parent
tag), removed, applied to a file, and searched.

- `src/` is the library, verified with Verus. It takes every decision: which directory a tag
  lives in (for every operation, search included), when a request is refused and with which
  message, which files a search finds (those with a symbolic link of their name in every
  searched tag).
  Adding, removing and applying tags are state machines that name each file-system step for
  the caller to carry out (`io.rs`); a search picks its results from listings that the caller
  read (`search.rs`); `operation.rs` turns the values of a command line into an operation.
  What `std::path` computes on path texts is reached through small trusted wrappers
  (`path.rs`).
- `app/` is the `tagger` command: it reads the command line with `clap`, finds the data
  directory with `directories`, performs the file-system steps and prints.
- `tests/` runs the library, with an in-memory file system standing in for the disk.
