# Gomoku

A Gomoku player, and a hub for it to play on, verified with Verus. The board has 18 by 18 cells,
Black plays first, and five stones in a row or more win.

## Layout

- `src/` is the library. Verus verifies it, but for the few functions that call other crates or the
  standard library and are believed: see below.
  - `board`, `rules`, `laws`, `zobrist`: the board. `rules` says in mathematics what a score, a
    candidate, a winning move and a hash are; `laws` proves what holds of them.
  - `strategy`: ways to choose a move, from taking a win at hand to a deep search. `forced` proves
    that what the strategies call a forced win is one. `search_model` says what the search computes,
    with the clock as an oracle, and `search_laws` proves what it tells and when it ends.
  - `selection`, `clock`, `engine`, `game`: a move within the time of a turn.
  - `server`, `hub_model`, `hub_laws`: the hub as a state machine, and what every request keeps.
  - `protocol`, `signalr`, `notice`, `json`, `history`, `text`: what is said between players and hub.
  - `runtime`, `ui`, `config`, `address`: what a bot knows, shows, and is configured with.
- `tests/` runs the library on concrete games.
- `app/` is the program around it: the command line, WebSockets, HTTP and JSON.

## What is trusted

Contracts that are believed and not proved stand in four places:

- `json`: seven questions to `serde_json` about a JSON text. Its answers have names only.
- `address`: three questions to `url` about an address. Its answers have names only, but for the
  length of a scheme.
- `clock`: `Instant` and `Duration` of the standard library. Nothing is claimed of what they read.
- `text`: `String::push`.

## The program

```
gomoku --demo
gomoku --local-server --local-server-port 8081
gomoku --bot-name bot-1 --room-name den --create-room --base-url http://localhost:8081
gomoku --bot-name bot-2 --room-name den --base-url http://localhost:8081
gomoku --ui --ui-port 8080
```

| Strategy | |
|---|---|
| `adaptive` | takes wins, stops wins and open fours, plays by pattern in the opening, else searches |
| `search` | principal variation search with a transposition table, within the time of a turn |
| `vcf` | wins by consecutive fours, else plays by pattern |
| `vct` | wins by consecutive threats, else plays by pattern |
| `tactical` | takes and stops wins and open fours, without looking ahead |
| `pattern` | the cell worth most |
