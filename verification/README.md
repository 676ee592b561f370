# wifi_gui

A terminal Wi-Fi manager for NetworkManager, built around a library that is
verified with Verus.

- `src/` is the verified library: reading NetworkManager's device codes and
  security flags, building the settings of a new connection, reducing scan
  results to one entry per network, and the state machine of the terminal
  front end (list order, selection, password prompt, status line).
- `app/` is the program around it: the D-Bus proxies and calls (zbus), the
  terminal loop (tokio, crossterm) and the drawing (ratatui).
- `tests/` runs the library on concrete values.
