# claspr

A runtime for OpenCL graphs whose scheduling is verified with Verus. A graph is
built once from typed ops, its inputs may be slots that are bound later, and it
can be run again and again. The library decides which commands are handed to the
device, in which order, behind which events, and what happens to every buffer on
every outcome. The commands themselves are performed by a driver.

## Layout

- `src/` is the library. Its model is a run (`exec_ctx::Walk`): the cells that
  hold values (`store::World`), and the commands issued so far with the driver's
  replies. Each op's contract says how one run of it changes that state, whatever
  the driver answers.
  - `store`, `input`, `slots`, `binding`: cells, pipes, slots and how they are
    bound, lent, given back and taken for good.
  - `leaf`, `leaves`, `seeds`, `copies`, `entries`, `image_ops`, `launch_op`,
    `leaf_op`: ops without ops inside. `plain` carries host values along a graph.
  - `graph`, `combinators`, `walk`: ops made of ops, and how a graph is run.
  - `cb`: command buffers, which hold runs of recordable ops and are replayed.
  - `host`: host closures inside a graph.
  - `chain`, `terminals`, `future`: running a whole graph. `device_op`: operations
    that run once, behind given events.
  - `launch`, `kernel_op`, `fan_out`, `fill_kernel`, `map_primitive`, `access`,
    `image`, `format`: kernels, their arguments, images and mappings.
  - `slot_laws`, `run_laws`, `wait_laws`, `cb_laws`, `rearm_laws`, `fresh_laws`,
    `contents_laws`: what holds across several functions. The last one follows the
    data through the commands of a run.
- `app/` performs the commands with OpenCL: memory, queues, worker threads,
  command-buffer functions and futures.
- `tests/` runs the library against a scripted driver, and against one that keeps
  the data.

## Running a graph

An application creates a `Store`, builds ops in it, and hands both to an
`ExecutionContext` together with a `Driver`. `terminals::sync` runs a graph and
waits; `chain::run_eager_chain` starts it in the background. The outputs come back
as checkouts: giving one back returns its buffer to where it came from, so that
the graph can run again.
