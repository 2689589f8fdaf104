# VortexDL

A music downloader with a web API that keeps a download queue, looks up
streams on YouTube and SoundCloud, and mirrors a music library onto Android
devices over ADB.

The crate is written in Verus: `src/` is the verified library, `app/` the
server around it (HTTP, WebSockets, processes, sockets), `tests/` the tests.

- `src/adb_device`: the `adb` argument lists and the parsing of their output
  (with the shell quoting and its round trip), the ADB server's packets, the
  device registry and sync slots, the plan and steps of a library sync, and the
  supervision of the device tracker.
- `src/adb`: the log records of a sync.
- `src/api`: the download queue (tasks, cancellation, events), the caches,
  search, stream lookups, the library listing order, the device endpoints and
  the error answers.
- `src/youtube`: video ids, the reading of YouTube's and `yt-dlp`'s answers
  (streams ordered by bitrate with a stable sort), `yt-dlp` runs and the steps
  of a download.
- `src/text`: the text handling the parsers share (lines, words, trimming,
  numbers).
