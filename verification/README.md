# chat_tui

A terminal chat client whose core is verified with Verus.

- `src/` is the verified library: messages and sessions (`message`,
  `session`), text measurement, wrapping and trimming (`text`), the screen
  state with its layout and stream rules (`ui`), the key and action rules
  (`app`), the decoding of streamed completion events (`llm`), and the stored
  record types (`data`).
- `app/` is the program around it: the terminal loop, drawing with ratatui,
  the HTTP request to the chat service, logging, the database pool and the
  scope's floating-point waves.
- `tests/` exercises the library on concrete values.
