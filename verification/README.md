# netmd

A library for talking to Sony/Sharp NetMD MiniDisc recorders, with its
protocol logic verified by Verus, and the `rminidisc` command-line tool
built on it.

## Layout

- `src/` — the verified library. Everything that can be decided without
  touching the USB bus: building command queries (`query`, `commands`,
  `descriptor`), scanning replies (`scan`), status words and wire enums
  (`types`, `status`, `playback`, `track_info`), reply polling and retry
  decisions (`transport`), device selection (`device`), disc and track
  titles (`disc`, `title`, `text`, `chars`), the group structure kept in the
  disc titles and the TOC cell budget (`groups`, `group_titles`,
  `group_edits`), WAV inspection (`wav`), track framing (`track`), the
  secure-session messages and packet encryption (`secure`, `crypto`, `ekb`),
  and the pure parts of the command-line tool and its playback panel
  (`cli`, `control`, `rows`, `logbuf`).
- `app/` — the program: USB transfers, audio decoding and resampling,
  argument parsing, the terminal panel, and logging. It calls the library
  for every decision.
- `tests/` — tests of the library on concrete values.

## What is proved

Every public function of `src/` states its result in its `ensures`; calls
into `encoding_rs`, `unicode-normalization`, `des`/`cbc`/`ecb` and `rand`
stand behind small trusted wrappers whose contracts say what those crates
document. Besides the contracts, the library proves laws that relate its
functions, among them:

- writing a listing's groups into the disc titles and reading them back
  gives the same groups, names, full-width names and tracks
  (`group_titles`);
- adding a group and removing it again leaves the listing grouped as
  before (`group_edits`);
- the group list read from a disc lists each track exactly once
  (`groups`);
- renaming a disc and reading its title back gives the new title (`disc`);
- status words, reply codes, frame counts and log filters survive their
  round trips (`types`, `util`, `logbuf`).
