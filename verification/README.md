# cringed

Cringed relays events from ESP boards on USB serial ports to userspace clients.

- `src/` is the verified library: the parsers for the boards' event lines
  (`daemon_types`, `edge_types`, with `fields`, `digits` and `text`), the choice
  of serial ports and the handling of each line read from a board (`serial`),
  the watcher's handling of the events socket (`listener`), the framing and
  paths of the events socket (`bridge`), the socket.io server's replies
  (`server`) and the command line's messages (`cli`).
- `app/` holds the programs around it: the serial bridge (`edge`, `daemon`), the
  socket.io server, the command line tool and the event watcher. They do the
  I/O and ask the library what to do.
- `tests/` runs the library on concrete lines and ports.
