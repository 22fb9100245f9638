# system_monitor

A system monitor that samples processor, memory, network, connection, disk
and process metrics every ten minutes until a configured stop time, appends
each sample as a JSON line, and finally runs a chart script.

- `src/` is the verified library (Verus): the search of the hardware
  monitor's sensor tree and the reading of its values (`sensor`, `cpu`,
  `text`), the choice of the busiest processes (`ranking`), the selection of
  established connections (`connections`), traffic over an interval
  (`network`), the physical-disk rows (`disks`), the stop time and the
  per-round decision (`schedule`) and the chart script's outcome (`script`).
- `app/` is the program around it: HTTP polling, system queries, JSON output,
  files, sleeping and the child process.
- `tests/` runs the library on concrete values.
