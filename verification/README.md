# fps_monitor

Follows the foreground process of a device and reports the time between its
frames. A kernel probe on the buffer-queueing function of the graphics library
writes one timestamped record per frame into a ring buffer; the monitor turns
those records into frame times and hands the newest one on.

- `src/` is the library, verified with Verus: what a record holds (`event`), the
  bounded window of recent frame times of a process (`probe`), which process is
  probed and where records go (`manager`), when a new foreground process is
  published (`pid_watch`), and the loop that decides what is done next
  (`probe_loop`). It performs no I/O.
- `app/` performs the actions that the loop asks for.
- `tests/` runs the library on concrete values.

Each module ends with the laws that hold of it, as proof functions whose names
start with `law_`.
