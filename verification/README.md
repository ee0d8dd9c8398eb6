# b3_cli

The logic of the b3 command-line agent: a daemon that runs a coding assistant in a
terminal, relays that terminal to browsers, speaks and listens for it, and carries
encrypted messages between agents.

- `src/` holds the decisions, formats and rules, each with a contract that Verus
  proves. Names without a body stand for what an outside crate computes (JSON text,
  ciphers, hashes, regular expressions, dates); the few functions that call those
  crates are marked `external_body` and say in their comments what is taken on
  trust of them.
- `app/` does what the library decides: sockets, files, processes, the clock and
  the web server.
- `tests/` runs the library on concrete values, with the real outside crates.

Functions whose names begin with `law_` state what holds across several functions:
what is encrypted for a member is read back by it, a message is delivered once
whichever way it arrives, a terminal delta is exactly what was written since, and so
on.
