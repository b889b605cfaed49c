# rgit

The logic of a web frontend for Git repositories, verified with Verus.

- `src/` decides what is read of a repository and what is shown of it: paths and object ids, the
  steps of a request for a path, a tag, a readme or a commit, and the HTML of files and diffs.
- `app/` reads repositories with libgit2, keeps what was read in caches, and serves pages.
- `tests/` runs the library on concrete values.

A request never reads by itself. It is a value that says what to read next, and takes what came of
reading it. What is shown of a repository is therefore a function of what was read, and the
contracts state that function.

Highlighting, Markdown, dates, caches and the digits of object ids come from other crates. Each
call into one stands behind an item whose comment says what is taken on trust.

Two things are asked of what is handed in from outside: that highlighting with a set of syntaxes
comes to an end (`highlighting_ends`), and that no call of a Markdown plugin panics or runs for ever
(`plugins_end`). `Git::plain_text` and `no_plugins` give such a set and such plugins; whoever loads
others answers for them.
