# thaum

The rules of a two-player token game, verified with Verus, and the websocket server
that plays them.

## Layout

- `src/` — the library, every function with a contract proved by Verus:
  - `text`, `tag`, `instruction`, `error`, `game_communicator`: the tagged text the client
    and server exchange (`//value/!` fields, `/name/value/!name/` sections) and every
    message the server sends, character for character.
  - `id_types`, `location_ids`, `locations`, `board`, `player`, `state_resources`: where
    tokens are and how they are created, moved, drawn and destroyed.
  - `token_data`, `token_instance`, `registry`: the kinds of tokens and their behaviors.
  - `state_machine`, `process`, `behaviors`, `actions`, `turn`, `start`, `callbacks`,
    `prompts`: the queue of happenings, the steps each one takes, how the tokens' behaviors
    react to them, and the prompts players answer.
  - `session`: one client's game, message by message; `finder`: browsing the kinds of
    tokens.
  - `laws`, `history`: properties that relate several operations (a move puts the token
    where it was sent, ids read back from their text, messages once sent stay sent, ...).
  - `rng`: the only calls into an outside crate (`fastrand`), with what is assumed of them.
- `tests/` — tests of the library on concrete games.
- `app/` — the server: listening for connections, loading the token files (TOML) from
  `data/tokens`, and sending what the library has to say.
