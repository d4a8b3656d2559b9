# crossword_web

The page logic of a collaborative crossword web client, written in Verus:
each function carries a contract over plain values (sequences, maps,
integers) and Verus proves the code meets it.

Layout:

- `src/` — the verified library, one module per area:
  - `games`, `game_list`, `home` — projecting the server's game list into
    rows, filtering, searching and stably sorting them, the Continue,
    Featured and Progress panels, the daily card, and the Library address
    (`lemma_games_url_reads_back`: what the address bar is given reads back).
  - `play` — clue keys and wire names, presence colours and the roster,
    the clue-entry state (typed letters, focus, backspace and arrows),
    selection, guesses, action batches and their JSON bodies, the presence
    map with its broadcasts and five-second expiry beat
    (`lemma_entry_lifetime`, `lemma_beats_compose`), and the board cells.
  - `game_new`, `completed` — the pre-start silhouette and Start button;
    standings, accuracy, solve time and the viewer's own result.
  - `auth` — form validation, the form-encoded sign-in body and the
    sign-in flow, server error messages, password and account forms.
  - `admin`, `generator` — the admin lists and their filters, overview
    tiles and activity feed, discount and user forms; the generator's
    parameter form, its JSON body and the run's state as events arrive.
  - `text`, `query` — shared string primitives (decimal formatting and
    parsing, JSON string quoting) and reading a URL query parameter.
- `tests/` — concrete scenarios for the library.
- `app/` — the browser side: serde shapes of the server's replies and their
  conversion, `window`/`history` plumbing, the sign-in, clock and presence
  loops, and the few figures computed in floating point.
