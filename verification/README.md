# Sentinel

A Linux operator dashboard that watches named services, listening ports and
host health signals. The decisions are a library verified with Verus; a
terminal front end reads the host and draws the result.

## Layout

- `src/` — the verified library
  - `text.rs` — string and number primitives with their specifications
    (splitting, trimming, decimal parsing and printing, code point order)
  - `sort.rs` — a stable insertion sort over a key order
  - `models.rs` — the records the dashboard exchanges
  - `listeners.rs` — reading `ss -H -ltnup`, exposure classification, ordering
  - `services.rs` — cgroup unit lookup, `systemctl`/`journalctl` commands and
    their output, process command lines, the service detail record
  - `watchlist.rs` — the `SENTINEL_WATCH_PORTS` format, the default list,
    matching services to listeners
  - `health.rs` — the TCP connect / HTTP `HEAD` probe as a state machine whose
    network steps the caller performs
  - `metrics.rs` — `/proc/stat` and `/proc/meminfo`
  - `thermals.rs` — `/sys/class/thermal` zones
  - `dashboard.rs` — the terminal dashboard's state and key handling
  - `laws.rs` — properties that span several functions
- `app/` — the terminal dashboard (`main.rs`), the collectors that read the
  host (`collectors.rs`), the backend commands of the desktop shell
  (`commands.rs`) and the serializable records (`models.rs`)
- `tests/` — tests of the library

## Watch list format

`SENTINEL_WATCH_PORTS` holds comma-separated entries
`name:protocol:address:port[:expected]`, with `protocol` `tcp` or `udp` and
`expected` one of `true`, `yes`, `up`, `expected`, `1`, `false`, `no`,
`down`, `optional`, `0`. Custom entries fall under the `custom` category.
