# loveletter

A server and a terminal client for multiplayer games of Love Letter, whose rules engine is
verified with Verus.

- `src/` is the verified library. A game is a `table::Table`: the game's record and one record
  per seat. Every operation (joining, starting, running a turn, taking a player's input) is a
  function from the table to the next table and the list of events sent to the players; its
  contract says exactly what it does, over the mathematical view of the table.
  - `cards`: the cards, the deck and its shuffle.
  - `ids`: random game and player ids.
  - `events`: the events and which player they reach.
  - `table`: the records of a game, the invariant every table keeps, and how events are
    written into the players' records.
  - `messages`: every text the game tells its players.
  - `turns`: passing the turn, the end of the game, dealing and the minister.
  - `lobby`: creating, joining and starting a game.
  - `play`: a player's input: the card, the target and the guess.
  - `history`: the proof that each player's record holds exactly the texts of the events that
    reached that player, that nobody who was out comes back, and that only the player whose
    turn it is can be waiting for input.
  - `text`: decimal numbers, printed and read.
  - `client`: what the terminal client computes: request addresses and bodies, the default
    server `https://loveletter.lschaefer.xyz` when no address is entered, and what to do with
    the server's answer to an input.
- `app/` is the program: the actix-web server with its SQLite database and broadcast channel,
  and the terminal client. Run `loveletter --server` for the server (add `--client` to run a
  client beside it); without `--server` the program is the client.
- `tests/` runs the library on concrete games.

Rules that the card texts state and the engine follows: a card that targets a player targets
another living player, never oneself; and a player whom a wizard makes throw away the
princess is out.
