# hangul-conv

Fixes Korean file names that come from macOS, where Hangul is kept in decomposed
jamo (Unicode form D), for systems that expect precomposed syllables (form C): it
renames the entries of a tree in place, and makes archives whose entries have names
in form C.

- `src/` is the library, verified with Verus: which entries are renamed, and to what;
  which are left out of an archive, and what the others are called there; what is
  counted and said. It touches no file.
- `app/` walks the file system, asks the library, and does as it is told. `main.rs` is
  the command; `window.rs` is the desktop application, which needs tauri.
- `tests/` runs the library.

What the library takes on trust from `unicode-normalization` and from std is marked
`external_body`, in `src/text.rs` and `src/paths.rs`, with what is claimed of it.

```sh
# rename in place, recursively; first as a dry run
hangul-conv rename -r -n /path/to/folder
hangul-conv rename -r /path/to/folder

# archive, wrapped in a folder named after the source
hangul-conv zip /path/to/folder
hangul-conv zip --no-wrap /path/to/folder
hangul-conv zip --include-mac-cruft /path/to/folder
```
