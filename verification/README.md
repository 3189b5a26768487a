# bili_sync

The decisions of a tool that keeps local copies of videos from a video platform, written in Rust and
verified with Verus: which videos of a source are new, what their files are called and where they
go, which of them are due, how downloads that run at once react to failures, how records are
repaired, and what is said about it in notifications.

- `src/` is the library. Every function states what it computes, and the proofs stand beside it.
- `tests/` runs the library on concrete values, and its statements on SQLite.
- `app/` does what the library decides: it talks to the platform, the database, the disk and the
  push service. It is ordinary Rust.

## The modules of the library

| Module | What it is about |
|---|---|
| `text`, `decimal`, `clock` | texts, numbers as texts, points in time |
| `entity`, `failure`, `task_state` | records, the causes of failures, the states of tasks |
| `source_run`, `refresh`, `details` | the course of processing a source, its list, the details of videos |
| `batch`, `stream`, `page`, `danmaku` | downloads that run at once, streams, pages, comments |
| `layout`, `folder`, `folder_name`, `format_arg` | the places and names of files |
| `notification`, `scan_message`, `push` | messages about finished scans |
| `repair`, `source_update`, `sql`, `fill`, `migration` | mending and changing the database |
| `tables`, `repaired` | how the statements of a repair are read, and what a repair achieves |

Work that alternates with input and output is written as a machine: a function from a step and what
came of it to the next step. The laws of each module are its public proof functions.
