# GPU Trace Viewer

A terminal and web viewer for `gpu_trace_stats.sqlite`, a database of the calls
that GPU traces hold. The logic is a Verus library; a small program around it
opens files, sockets, the terminal and the database.

## Commands

```bash
gpu-trace-viewer --db ../gpu_trace_stats.sqlite tui
gpu-trace-viewer --db ../gpu_trace_stats.sqlite serve --host 127.0.0.1 --port 8766
gpu-trace-viewer --db ../gpu_trace_stats.sqlite runs
gpu-trace-viewer --db ../gpu_trace_stats.sqlite top --by first --limit 10
gpu-trace-viewer --db ../gpu_trace_stats.sqlite calls --call-order 10
```

Without `--db`, the program looks for `gpu_trace_stats.sqlite` in the current
directory and then for `../gpu_trace_stats.sqlite`.

## Keys of the terminal viewer

- `q`: quit
- `Tab`: switch between Summary and Calls
- `j`/`k` or arrow keys: move the selection
- `Enter`: select an operation of the summary and load its calls
- `/`: edit the filter on kernel names
- `g`: ask for a call by its number
- `s`: cycle through the orders of the summary
- `r`: switch run
- `c`: clear filter, selected operation and asked-for call, so that the calls of
  all kernels are shown

A selected call is shown among those with numbers up to five away from its own.

## Web server

- `GET /`, `/api/runs`, `/api/summary`, `/api/calls`, `/api/call-context`
- `GET /download/summary.csv`, `/download/calls.csv`
- `POST /api/import-trace`, `/api/import-csv`, and `/api/delete-run` with
  `{"run_id": N}`

## Layout

- `src/`: the library, all of it verified.
  - `text`, `decimal`, `measure`, `table`: texts, integers, quantities by their
    bits, and values by name.
  - `db`, `query`, `record`: rows, and the statements that read and write them.
  - `json`, `trace`, `event`, `category`, `stream`, `summary`, `importer`,
    `calls_csv`, `source`: imports of traces and of tables of calls.
  - `batching`, `readback`: what holds of whole imports.
  - `http`, `body`, `web`: requests and responses.
  - `tui`, `view`, `title`, `panel`, `listing`: what keys do, and what is shown.
- `tests/`: tests of the library.
- `app/`: the program.

Quantities are double-precision numbers. The library carries them as their bits
and decides their order; sums, quotients and decimal texts of them are the
program's.
