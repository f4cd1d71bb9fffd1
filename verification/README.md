# ccorral

A terminal control panel for coding sessions that run in tmux. The left column lists
the sessions; the right one embeds a real tmux client, attached to the pane of the
selected session and rendered at the size of the panel.

- `src/` is the verified library: the list and how it is refreshed, status files, keys
  and the bytes they send, layout, colours, tmux commands, and the panel's state.
- `app/` runs tmux, the PTY and the terminal around it.
- `tests/` runs the library on concrete values.

Run it in a tmux window of its own, not split with a session, and name the program that
the sessions run: `ccorral PROGRAM`.

| Key | Action |
|-----|--------|
| Ctrl+Up / Ctrl+Down | switch session |
| Ctrl+G | go to the session's window |
| F6 / F7 | restart / restart without permission prompts |
| Ctrl+L / F5 | refresh |
| F2 | toggle mouse |
| wheel | scroll |
| Esc | interrupt |
| Ctrl+Q | quit |
| other keys | forwarded to the pane |

Embedding resizes the real pane. To keep that from becoming a storm, switches are
debounced and sizes have a floor. Where a refresh of the list puts another pane in the
place that is selected, that pane is attached. Ctrl-D is never forwarded.
