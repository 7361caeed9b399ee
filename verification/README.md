# redis_tui

A terminal browser for the keys and values of a Redis server on this machine
(`redis://127.0.0.1:6379`). The top line filters the keys by substring; the left
part lists the matching keys; the right part shows the value of the selected key
(the fields of a hash, in order of field names).

Keys: in selecting mode `j`/`k`/`h`/`l` (or the arrows) move the highlight
between the parts, Enter focuses the highlighted part, `H`/`L` resize the two
lower parts, `q` quits. In the focused input, typed characters filter the keys,
Backspace deletes, Enter or Esc return to selecting. In the focused key list,
`j`/`k` move the selection, `g`/`G` jump to the first/last key, `h`/`l` scroll
the keys sideways. In the focused value, `j`/`k`/`g`/`G` move among the fields.

Layout:

- `src/` — the library, verified with Verus:
  - `app.rs` — the state of the screen, a model of it (`AppView`) and of every
    key event (`handle_key_spec`), and what each part draws;
  - `list_state.rs` — the selection of a list;
  - `redis_client.rs` — hash values as ordered maps, their rendering, and the
    recognition of the hash type;
  - `sort.rs` — merge sort of strings;
  - `text.rs` — substring search, the order of strings, decimal numerals,
    slicing by character position;
  - `laws.rs` — properties that span several operations.
- `app/` — the program: the Redis connection, the terminal loop and the drawing.
- `tests/` — tests of the library.
