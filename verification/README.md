# hydra_player

The decision logic of the Hydra music player, written in Verus and proved
against its contracts:

- `icy` — ICY (Shoutcast/Icecast) metadata framing and title parsing.
- `ranged`, `download` — byte-source cursors, response checks, reconnect
  budgets, radio back-pressure, stream capture and ranged buffer fill.
- `identity` — stable playback identities and the in-memory track slots.
- `gapless` — iTunSMPB encoder delay/padding.
- `decoding` — track choice, corrupt-frame policy, decoder messages.
- `devices`, `output` — ALSA sink matching, output device and
  configuration choice, latency hints, the device watcher.
- `sync_paths`, `sync_plan`, `device_sync` — device-sync layout, planning,
  playlists and volume guards.
- `tray`, `commands`, `web` — tray texts, small command decisions,
  Navidrome and Bandsintown requests.
- `text` — character-sequence helpers shared by the above.

`app/` holds the I/O around the library (HTTP, ring buffers, files, disk
listing, serialised payloads); `tests/` exercises the library on concrete
values.
