# grabit

The core of a desktop video downloader that drives yt-dlp and ffmpeg: the
download queue, the reading of yt-dlp's output, the history of finished
downloads and the choice of engine programs, written in Verus with their
behaviour stated in contracts and proved.

- `src/` is the verified library.
  - `models.rs`: settings, statuses, downloads, history items, media descriptions.
  - `state.rs`: the application state (downloads keyed by id) and what every operation keeps.
  - `downloader.rs`: the queue (add, choose what to start, follow output lines,
    pause, resume, cancel, finish, clear, list newest first).
  - `progress.rs`: one JSON progress report applied to a download.
  - `ytdlp.rs`: yt-dlp's arguments, error lines and media descriptions.
  - `json.rs`: the fields read out of yt-dlp's JSON through `serde_json`.
  - `history.rs`: the history, newest first, at most 500 items.
  - `engine.rs`: locating and fetching yt-dlp and ffmpeg.
  - `archive.rs`: taking ffmpeg and ffprobe out of the downloaded archive, read through `zip`, `tar` and `xz2`.
  - `paths.rs`: whether a program lies inside a folder, by the parts of their paths.
  - `text.rs`: string operations (trim, lines, replace, prefixes) with specifications.
  - `laws.rs`: properties that span several operations.
- `tests/` runs the library on concrete values.
- `app/` is the Tauri application around it: windows, commands, processes,
  files and the network.
