# codex_kit

Verified pieces of a coding agent: what is pasted into its terminal, the feedback
that it sends, the broker that keeps credentials away from child processes, the
catalog of one model provider, and the names of tools on the wire.

- `src/paste` reads pasted paths and search queries, turns clipboard contents into
  PNG files, and steps through the ways to fall back on where the clipboard gives
  no image.
- `src/feedback` collects correlation tags, selects threads and attachments, and
  steps through an upload.
- `src/broker` makes stand-ins for credentials, puts them into environments and
  takes them out again, and exchanges them in requests.
- `src/minimax` holds the default model catalog and the provider's account.
- `src/tool_name.rs` joins and splits tool names.
- `src/text.rs`, `src/text_map.rs` and `src/path.rs` hold what the others share.
  Paths follow the rules of Unix: a backslash is no separator, so that on Windows
  `C:\a` and `C:/a` count as two files.
- `src/outside` wraps the calls into outside crates. The contracts there are
  relied on; everything else is proved.
- `app` does the input and output around it: the clipboard, commands, temporary
  files, locks and the upload.

Properties that relate several functions are stated as proof functions whose names
start with `law_`.
