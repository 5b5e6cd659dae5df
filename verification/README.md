# Kosmos Downloader

A desktop download manager. A file is fetched in several ranges at once, a paused or broken
download goes on where it stopped, and a file that changed on the server is noticed before old and
new bytes get mixed.

## Layout

- `src/` is the library, verified with [Verus](https://github.com/verus-lang/verus). It decides
  how a file is divided, what a reply means, which bytes go where, when a download may be resumed,
  how names are chosen and what the window shows. Only what is reckoned in floating point, the
  smoothing of the shown speed and the widths of columns, is decided in `app/`.
  - `client` reads URLs, headers and ranges.
  - `storage` and `path` plan file access.
  - `engine` holds the download session, its workers and its schedule.
  - `history` keeps the log of finished downloads.
  - `ui` holds the state behind the window, the settings and the texts that are shown.
- `app/` is the program around it. It sends requests, touches files, runs the window, and reports
  to the library what happened.
- `tests/` runs the library on concrete values.

## How the two halves work together

Long-running work is a state machine in the library. `Session`, `WorkerTask` and `FetchTask` take
an event and answer with what has to be done next; `app/` does it and reports the outcome as the
next event. The properties that span several steps are stated next to the code as proof functions
whose names start with `law_`.
