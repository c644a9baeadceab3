# sysmon

A small system monitor. The verified library (`src/`) holds its logic:

- `text`: decimal numbers, `str::parse::<i32>`, white space, `trim`,
  `split_whitespace`, `contains` and column padding, each against a
  specification of what the standard library does;
- `clock`: `MM:SS` and `HH:MM:SS` durations;
- `process`: the process record and its table rows;
- `order`: sorting pids, and finding a record (process or table entry) by pid;
- `system`: the monitor's state, its sliding CPU/memory histories and the
  indented process tree;
- `table`: the printed process tables and `findbypid`;
- `report`: system, sensor, disk and processor reports;
- `tree`: the process tree as a `ptree` item;
- `console`: the full-screen interface as a state machine from keys to
  actions, and the screen it shows;
- `prompt`: the line-oriented prompt's commands and the search by name.

`app/` reads the operating system (`sysinfo`, `psutil`, `nix`), renders
floating-point figures, draws with `tui` and runs the two interaction loops,
handing plain values to the library.
