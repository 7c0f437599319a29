# initiative

A verified library for a tabletop game master's assistant: it parses what the user types into
commands, keeps a journal of characters and places with undo and redo, tracks in-game time, and
provides the editing logic of a terminal interface. The functions of the library are verified
with Verus against their contracts, except a few trusted wrappers around calls that Verus cannot
read, whose contracts are believed as written:

- `roll` (`app/command/app.rs`) — `caith`'s `Roller::new` and `Roller::roll`; nothing is stated
  of the outcome, and it is only called on formulas that the roller can roll and return from
  (its numbers fit, its totals cannot overflow, its parentheses and repetitions are bounded,
  and nothing in it explodes or rerolls without end).
- `new_uuid` (`storage/repository.rs`) — `uuid::Uuid::new_v4`; nothing is stated of the result.
- `string_of`, `is_uppercase`, `is_alphanumeric` (`text.rs`) and `lowercase`
  (`cli/autocomplete.rs`) — std's `String::from_iter`, `char::is_uppercase`,
  `char::is_alphanumeric` and `char::to_lowercase`; the Unicode tables are named, not stated.

Data stores written by users of the library (the `DataStore` trait) are trusted to keep the
trait's contracts.

## Layout

- `src/` — the library, verified.
  - `text.rs`, `sorting.rs` — text utilities (ASCII case folding, decimal numbers, splitting,
    trimming) and the lexicographic orders used to sort offers and suggestions.
  - `time/` — in-game time and intervals, and the `now`, `+interval` and `-interval` commands.
  - `storage/` — things, data stores, the repository with its undo history, backups, the
    texts that show the journal, and the journal commands (`delete`, `save`, `load`, `journal`, `undo`, `redo`, `export`, `import`).
  - `app/` — command matches, the union of every kind of command with the plan for running an
    input, the application wrapper, autocompletion, and the context of recent things.
  - `cli/` — the input line with history and search, the suggestion list, and word wrapping.
  - `account/`, `world.rs` — account commands and the vocabulary of species and buildings.
- `tests/` — the tests of the library.
- `app/` — the terminal program around the library (termion), which is not verified.

## What is not here

The tutorial, the reference (SRD) commands, the world commands that generate characters and
places, and the texts of `help` and `changelog` are not part of this library: they rest on a
world model (character and place generation, descriptions, relations) and on text files that
are not part of this project's sources. For the same reason a thing holds only its kind and its
name, and a thing's description in suggestions and listings is its kind. The interface answers
`help` and `changelog` with a note that the text is not included.
