# ntsql_storage_file

Verified storage files of a database engine: a transaction commit log, a page store and
restart checkpoints.

- `src/` is the library. It is written in Verus; everything in it is verified. It holds no
  file: an operation gives a plan of effects, and opening takes the bytes of a file. Start
  with `src/lib.rs`, which describes the files and names the modules.
- `app/` carries the plans out on files: creating, opening, locking, writing, synchronizing,
  truncating and replacing them. It also turns the library's errors into errors of the
  standard library.
- `tests/` runs the library on files in memory.

The byte formats are stated as spec functions: `log_header`, `log_frame` and `log_scan` for
the log, `page_store_header`, `page_store_frame` and `page_store_scan` for the store,
`checkpoint` for checkpoints. Contracts speak of the models in `log_model`, `page_store_scan`
and `checkpoint`.

The modules whose names end in `laws` prove what holds across operations, such as that
opening a file gives back what was appended to it.

The only thing taken from outside is `std::io::Error`, which the library's errors carry. What
it says about itself, its kind, its number and its text, is not reasoned about; see
`src/io_error.rs`.
