# rmcl

The verified core of a terminal Minecraft launcher's content browser, written in
Verus: the functions under `src/` are verified against their contracts. Calls
into std, chrono and ratatui go through a few small wrappers whose contracts are
trusted, not proved; each says which outside function it calls.

- `src/` — the library: content tabs and modes, the installed-content list
  (search, selection, paging, streamed rows, file-watcher diffs, images and
  provider metadata), provider discovery (search paging with retries, result
  merging, the version popup and project page), the instance list, the log
  viewer, key handling and focus navigation, and the text of the panels.
- `tests/` — tests run against the compiled library.
- `app/` — the terminal side: key and file-system events turned into the
  library's values, background queues, files read for the log viewer, and what
  is drawn with `ratatui`.
