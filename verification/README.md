# torii

A captive-portal listener for NetworkManager. When a network wants you to log
in first, torii opens its login page in the browser by itself.

- `src/` is the verified library: what torii decides, and the texts that it
  takes apart or puts together to do so. `lib.rs` says what each module is for.
- `app/` is the program around it: D-Bus, sockets, processes, files and the
  terminal, the log lines and the help.
- `tests/` runs the library on concrete values.

What the library takes on trust of other code stands in `src/terminal.rs`
(the terminal library), in `src/fetch.rs` (decoding bytes to text) and in
`src/text.rs` (appending a character to a string).
