# meme_game

The rules of a party game in which players answer situations with memes (or
memes with situations), with their contracts proved by Verus.

- `src/` is the verified library: the lobby rules, starting a game and dealing
  the shuffled content, submitting, voting and scoring, closing rounds whose
  deadline passed, the plans of store writes and notices each step makes,
  the snapshot a player sees, content packs, seeding the official packs, the
  realtime channels and the timer's back-off. Identifiers are `u128` values
  (the 128-bit form of a UUID) and instants are `i64` microseconds since the
  Unix epoch.
- `tests/` runs the library on concrete values.
- `app/` is the service around it: the use cases that drive the Postgres
  store and the realtime notifier through ports, the background timer, the
  seeding of packs from JSON files, and the HTTP interface with its JSON
  shapes.
