# ytdlp_applet

The verified core of a COSMIC panel applet that downloads videos and audio
with yt-dlp. The library is written in Verus; every function in `src/` is
proved against its contract, except what it trusts: the wrapper
`text::push_char` around `String::push`, and the four declarations in
`formats.rs` of yt-dlp's selector enums (`VideoQuality`,
`VideoCodecPreference`, `AudioQuality`, `AudioCodecPreference`), whose
variants Verus reads from yt-dlp itself.

- `src/formats.rs` — the choices offered in the panel (video quality and
  codec, audio quality and codec, video container), their labels, the order
  of the dropdowns and the yt-dlp selectors they stand for.
- `src/progress.rs` — reading yt-dlp's console output: progress lines,
  playlist announcements and post-processing markers.
- `src/job.rs` — the command lines handed to yt-dlp, the title shown for a
  download and the leftover files removed after it.
- `src/panel.rs` — the panel's state and the downloads in flight, changed by
  one verified `update` per event, with the laws that the updates keep.
- `src/display.rs` — what is shown under each download, before formatting.
- `src/setup.rs` — the order in which the binaries are located, copied,
  linked, downloaded and made executable at start-up.
- `src/text.rs` — character-level text operations (`trim`, `find`,
  `split`, unsigned integer parsing) over `Seq<char>`.

`app/` holds the COSMIC application around the library: windows, the file
chooser, notifications, the file system, the network and the processes, and
the floating-point reading and formatting of rates and percentages.
