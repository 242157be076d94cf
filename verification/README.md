# paneru

The decision core of a tiling window manager that lays windows out on an endless
horizontal strip for each workspace.

`src/` is a verified library. Its functions take plain values (numbers of windows,
rectangles, points in time) and answer with plain values; what they answer is stated in
their contracts and proved. Windows, strips and displays are known by integer handles,
the time of day is an argument, and what has to be done to the world comes back as a list
of requests.

- `ecs` holds the rules: `layout` (strips and columns), `focus`, `mouse`, `scroll`,
  `sync` (which echo of a window is trusted), `systems` (the steps of a frame),
  `orchestrator` and `schedule` (how often a frame runs and what it does).
- `commands` holds what the user can ask for.
- `ax_writer` and `ax_reads` keep the books on the threads that write and read frames.
- `geometry`, `time`, `damping`, `seqs` and `maps` are what the rest is built on.

`app/` is the running side: threads, the Bevy world, easing and momentum in floating
point, and the calls into the platform.

`tests/` runs the library.
