# yage

The core logic of a small game engine, verified with Verus.

- `src/` is the verified library:
  - `objects`, `events`, `logic`: the collection of live game objects, the
    events they subscribe to, and the decisions of one logic tick;
  - `assets`: asset headers and metadata, the registry of known assets, and
    the hub that sends load and free queries to asset factories over
    lock-free queues (`queue` wraps crossbeam's `ArrayQueue`);
  - `resources`: resource headers, registries, and the resource manager
    that keeps a catalogue up to date from a backend and parses resources
    on demand;
  - `audio`: MIDI files merged into one timeline (read with `midly`), WAV
    clips decoded with `hound`, the voice table of the actors' source,
    sample layouts, and the choice of processing kernels;
  - `sync`, `monitor`, `threads`, `render`, `renderer`, `idmap`: the
    decisions of a rendezvous between threads, min/max statistics, thread
    scheduling parameters and the reading of a thread's statistics line,
    frame data for the renderer, the renderer thread's loop as a state
    machine, and an insertion-ordered map;
  - `x11`: the choice of a GLX framebuffer configuration and the meaning
    of each X event.
- Identifiers of queries, actors and resources are numbered by a source
  that each owner keeps (the asset hub, the actors' source, a resource
  factory), not by one counter shared by the whole process: numbers are
  unique within one owner, and two owners hand out the same numbers.
  `ids` states how such a counter counts up (`law_counter_counts_up`):
  before it wraps, it hands out distinct, increasing numbers, none below
  its start (actor identifiers start at one, so zero stays free).
- `tests/` runs the library on concrete inputs.
- `app/` holds what the library does not: locks and condition variables,
  clocks and floating-point statistics and mixing, type-erased handles,
  serialisable copies of the headers, and operating-system calls.
