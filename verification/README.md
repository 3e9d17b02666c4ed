# soundfx

The core of SoundFX, a Discord bot for managing and playing sound effects,
written as a Verus library with its behaviour stated in contracts and proved.

- `src/` is the verified library: reading search terms and sound IDs, the
  command registry and its message dispatch, argument parsing, permission
  rules, the upload conversation, listing pages and their buttons, search
  results within Discord's message limit, soundboards, and the replies of
  every command.
- `src/pattern.rs` holds the trusted boundary to the `regex` crate.
- `tests/` runs the library on concrete values.
- `app/` is the bot around it: Discord (poise/serenity), the MySQL database
  (sqlx), voice playback, and the environment.
