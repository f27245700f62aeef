# ue-sim

Starts, stops and watches a simulation of many 5G UEs: the processes and network namespaces of a
simulation, a status report, a live dashboard, a Monitor with measurements of every UE, and pages
to plan slices and cells and to order handovers.

- `src/` is the library `ue_sim`, verified with Verus: what is run to start and stop a simulation,
  what the logs and reports say, what the keys of every page do, and what is shown.
  - `launch`, `paths`, `json`: starting and stopping, the names and places of things, and the small
    JSON files of a simulation
  - `dash`, `monitor`, `conn`, `probes`: the report and the dashboard, the Monitor, the stage of a
    UE's connection, and the measurements
  - `slice`, `layout`, `configure`, `handover`, `advanced`, `telnet`: slices and their metrics, the
    plan of a launch, handovers, and the channel model
  - `ui`, `keys`, `text`, `order`: styled text, keys, and work on characters and numbers
- `app/` is the program around it: the command line, files, processes, threads, sockets and the
  terminal. Measured values are floating-point numbers only here; the library takes them as text or
  as bits.
- `tests/` runs the library on concrete values.

What Verus does not prove stands in the doc comments of the few trusted functions: `String::push`
in `text`, and the calls into `serde_json` in `json`.
