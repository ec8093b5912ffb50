# yt_grab

The verified core of YT Grab, a desktop downloader that drives yt-dlp.

- `src/` is the library, checked by Verus:
  - `text`, `numbers`: character-level helpers, decimal printing and parsing;
  - `progress`: reading yt-dlp's progress lines, duration text;
  - `ytdlp_args`: the command lines handed to yt-dlp;
  - `download`: the retry policy of a download and the messages it ends with;
  - `registry`: running processes and cancelled downloads;
  - `host`: where helper programs are looked for, per operating system;
  - `staging`: keeping the per-user copy of yt-dlp and replacing files;
  - `metadata`: the header and format list shown to the user.
- `app/` is the Tauri application: commands, processes, files, the
  environment, and the floating-point progress display.
- `tests/` exercises the library on concrete values.
