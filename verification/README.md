# yarm_runtime

The runtime core of a capability microkernel, verified with Verus: scheduling and dispatch,
blocking sends and queued receives, capability transfer, reply records, shared regions, user
memory, futexes, deadlines, and the block-cache service.

## Layout

- `src/` is the library; every item in it is verified.
  - `ids`, `seqs`: identifiers, errors, and facts about sequences.
  - `scheduler`, `task`, `ipc`, `capability`, `vm`, `memory`, `trap`, `deferred`: one domain each,
    with its mathematical model and the operations on it.
  - `kernel`, `control`: the state of the whole kernel, its start, and the control plane.
  - `runtime`: `SharedKernel` and the operations that span domains. Each says what it returns and
    what state it leaves, as functions of the state before it.
  - `laws`: what holds across operations. Nothing is lost or done twice, a failure is undone, a
    stale reference is inert, and every operation keeps the state sound.
  - `blkcache`: a write-back block cache and the service in front of it.
- `tests/` runs the library on concrete values.
- `app/` prints, halts where the library says that something is torn or misplaced, and walks a range
  page by page to ask other processors about each.

## Model

`Kernel` is the state of the whole kernel as plain sequences and records. `SharedKernel@` is that
state, and contracts are written over it: an operation `x` that can fail has an `x_result` and an
`after_x`, and its `ensures` says that it returns the one and leaves the other.

## Builds

What differs between a hosted and a freestanding machine is the caller's to supply. The hardware
clock, the page-table root, and how many processors answered a translation shootdown are arguments;
on a hosted machine no processor answers. The first user task may be placed on any processor, as on
a hosted machine; `runtime::pinning` says which placements a freestanding machine halts on, and
`laws::pinning` that no wake is among them while the home of that task is the bootstrap processor.
