# tgx

A Telegram exporter: chats come out as web pages that read offline and as a
`result.json` in Telegram Desktop's own format, with forum supergroups split
into one folder per topic.

The library in `src/` is verified with Verus. Each public function states what
it returns, and the promises that span functions are proof functions named
`law_*`.

- `format/`: the JSON emitter's own rules (Desktop's key order, the framing
  of the streamed `messages` array, the indent each message block gets and
  the `reactions` quirk; the one-space pretty printing itself is
  `serde_json`'s, run in `app/`), message text with its entities, names and
  initials, file sizes.
- `html/`: the page writer (pagination, date dividers, joined messages, links
  across pages), escaping and URL vetting, and each kind of message body.
- `media/`: file names that never collide, topic folder names, and the
  expansion of Telegram's stripped thumbnails into JPEGs.
- `gui/`: the window's state and every rule about it: the chat list's filter,
  sort, grouping and folds; the selection; the queue and journal; the sign-in
  steps; what each worker event does; and what the background jobs decide
  about what Telegram answered.

`app/` is the program around it: the egui window, the tokio bridge, the jobs
that talk to Telegram, and the files an export writes.
