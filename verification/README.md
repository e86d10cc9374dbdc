# audio_hub

The logic of an audio hub server, verified with Verus: the hub scans a
music library, keeps its metadata, and plays tracks on network bridges,
cast devices, browsers or the local machine.

`src/` is the verified library. Every function there carries a contract;
calls into other crates go through a few trusted wrappers, each documented
with what it assumes of the crate it calls.

- Bridge wire protocol: `proto`, `wire`.
- Text, paths and names: `strings`, `text`, `paths`, `rootpaths`, `names`,
  `tags`, `media`, `albums`.
- Library and metadata: `library`, `scanning`, `store`, `edits`, `queue`,
  `coverart`, `assets`, `musicbrainz`, `order`, `json`.
- Playback and outputs: `playback`, `playqueue`, `control`, `bridges`,
  `transport`, `cast`, `browser`, `localplayer`, `discovery`.
- Sessions and the HTTP API: `sessions`, `local_sessions`, `table`, `sse`,
  `range`, `requests`, `events`, `models`, `config`.

`tests/` exercises the library on concrete values. `app/` is the command
line around it: argument handling and reading the configuration file.
