# Kosmokopy

Kosmokopy copies and moves files: on one machine, to a host, from a host, and
from one host to another. It leaves out what is excluded, minds what is at the
destination already, and removes a source only once the target was verified to
hold it.

## Layout

- `src/` is the library. Everything in it is verified with Verus: what a
  function does stands in its `ensures`, and what the parts promise together
  stands in public proof functions (`step_laws`, `transfer_laws`, `rerun`, and
  beside the functions they are about).
- `app/` is the program: the command line, the window, and the calls to the
  file system and to `ssh`, `scp` and `rsync`.
- `tests/` runs the library on concrete values, with a small world of files and
  hosts for whole transfers.

## How a transfer runs

`transfer::Transfer` does nothing by itself. It says what is to be done
(`action`), is told what came of it (`advance`), and goes on until it is over.
`app/world.rs` is the loop around it.

| module | what it is about |
|---|---|
| `text`, `paths`, `names`, `wildcard` | texts, Unix paths, numbered names, patterns |
| `request`, `cli`, `form`, `setting` | what is asked for, and by which means |
| `exclusion`, `collect`, `plan` | which files, and where each of them goes |
| `shell`, `integrity` | commands and quoting, comparing and hashing files |
| `setup`, `steps`, `notes` | the order of things, for a transfer and for a file |
| `exchange`, `transfer` | actions, replies and messages; the transfer itself |
| `json`, `report` | the line for programs, and the words for people |

## What is trusted

The contracts of a few outside functions are believed without proof:
`String::push`, `String::from_utf8_lossy` and `str::to_lowercase` of the
standard library (`text`), and `new`, `update` and `finalize` of SHA-256 in the
`sha2` crate (`integrity`).
