# agl_health

System-health and security observability for Automotive Grade Linux: kernel
probes feed a daemon that publishes CPU, scheduler, memory, block I/O,
network, per-cgroup bandwidth and security-syscall telemetry over POSIX
shared memory, D-Bus and a REST/WebSocket API.

## Layout

- `src/` is the library, written in Verus. Every function there carries a
  contract that Verus proves, except one trusted wrapper around std's
  lossy UTF-8 decoding (`text::lossy_string`), whose contract states what
  std documents:
  - `events`, `metrics`, `layout`: the shared record types and the fixed
    shared-memory snapshot layout;
  - `le_bytes`, `segment`: the little-endian image of the snapshot, its
    header checks and the seqlock protocol between writer and readers;
  - `text`, `procfs`: the `/proc` text parsers;
  - `aggregate`, `snapshot`, `sort`, `bandwidth`: per-tick aggregation of
    the probe maps, the two snapshot writers and the rolling bandwidth
    window;
  - `wire`, `time_base`: the event model served to clients and the
    monotonic-to-wall clock conversion;
  - `bpf_map`, `probes`, `netprobes`: the per-event decisions of the kernel
    probes over bounded maps;
  - `loader`, `build_plan`, `cgroups`: what the loader attaches, how the
    build is driven, and how cgroup directories are named.
- `tests/` runs the library on concrete values.
- `app/` is the program around the library: loading the probes, reading
  `/proc` and the maps, the shared-memory writer and dump tool, D-Bus, the
  HTTP API and the build helper.
