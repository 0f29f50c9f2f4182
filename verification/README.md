# stream_hub

A hub for live streams: it pulls sources with `ffmpeg`, offers them as HLS, and
lets an administrator manage them over HTTP.

- `src/` is the verified library: the registry of streams, the account and its
  session, the command lines of `ffmpeg` and `ffprobe`, what the answer of
  `ffprobe` says, the playlist, and what every request is answered. Requests
  that need a process or the database in between are split into steps.
  `src/laws.rs` states what holds across these functions, and of the database
  and the registry together.
- `app/` is the server: it runs the steps against sockets, processes, files and
  the database.
- `tests/` runs the library on given values.
