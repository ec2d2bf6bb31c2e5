# Jot

Push-to-talk dictation for Windows: hold a key, speak, let go, and the words
appear at the cursor. Nothing that was said is thrown away: a recording is on
disk from its first moment, and whatever goes wrong afterwards, its words can be
brought back from History.

## Layout

- `src/` is the engine, written in Verus. Its functions have contracts that are
  proved, and the properties that span functions are public proof functions
  beside them. What rests on another crate (regular expressions, JSON, base64,
  identifiers, the calendar) goes through a small wrapper each, whose comment
  says what is taken on trust. The engine opens no file, no device and no
  connection: where something has to be done, a function returns the action, and
  another takes what came of it.
- `tests/` runs the engine on concrete values.
- `app/` is ordinary Rust: the microphone, the keyboard hook, the clipboard, the
  network, SQLite and the windows. It performs what the engine asks for.

## Numbers

The engine has no floating-point numbers. A level is the bit pattern of a
non-negative `f32`, and decibels are the position of an `f64` in the total order
of all of them, so both compare as integers. Spans of time are nanoseconds.

## Assets

The icon, the fonts and the earcons are read at start from a folder named
`assets` beside the program.
