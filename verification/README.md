# binsync

Keeps downloaded programs in step with the release pages that publish them.

`binsync.config` has a section for each program:

```ini
[rg]
page_url = https://github.com/BurntSushi/ripgrep/releases
anchor_tag = a
anchor_text = x86_64-unknown-linux-musl\.tar\.gz$
version_tag = h1.title
version = 13.0.0
target_filename_to_extract_from_archive = rg
desired_filename = ripgrep
```

The first link that `anchor_tag` selects and `anchor_text` matches leads to the download, and the
text of the first element that `version_tag` selects is the version. If the program is missing or
older, it is downloaded, taken out of its archive, and its version is recorded in the file.

- `src/` is the library, verified with Verus: the settings, the search of pages and archives, and
  every decision of a run, as a function from state and event to the next state and action.
- `app/` is the program around it: it fetches pages and reads and writes files.
- `tests/` runs the library.

File names in an archive are told by the rules of the platform on which the program runs: the
caller says which one that is.

What is believed without proof of `tini`, `scraper`, `regex`, `flate2`, `xz2`, `tar` and `zip`, and
of `std::str::from_utf8`, stands in the contracts of the functions marked `external_body`, each with
a comment that says what it claims.
