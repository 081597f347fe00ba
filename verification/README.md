# NexKVM

NexKVM shares a keyboard, a pointer, the clipboard and files between two trusted
machines on a local network. This package holds its decision logic as a library
that Verus proves, and the program around it.

## Layout

- `src/` is the library. It touches no socket, no file and no screen: it takes
  what was received or observed, and says what to do next.
  - Peers: `trust`, `pairing`, `admission`, `leases`, `arbitration`, `connection`,
    `lanes`, `net`.
  - Input: `input` (events and roles), `input_share` (handing the focus over and
    back), `input_config`.
  - File transfer: `manifest`, `checkpoint`, `digest`, `content` (what is read and
    written, as far as its digest needs it), `sources`, `walk`, `queue`, `message`,
    `outbound`, `inbound`, `receive`, `files`, `transfer_error`.
  - Clipboard: `clipboard`, `fingerprint`.
  - Program and panel: `cli`, `daemon`, `daemon_log`, `paths`, `panel`,
    `notifications`, `sharing`, `feedback`, `labels`, `media`, `mobile`.
  - Simulation: `simulation`, `sim_config`, `sim_report`.
  - Common ground: `text`, `sorting`, `ids`, `clock`, and `outside`, which holds
    every call that leaves the crate and what is believed of it.
- `tests/` runs the library.
- `app/` is the program: command line, daemon and control panel.

## How the proofs are organised

Every function states over mathematical values what it returns or changes. For a
state machine, specification functions give the next phase and the action that
follow from a state and an event (`receive_step`, `store_step`, `write_step`,
`file_end_step`, `routed` and the like); what a step does to the rest of the state
is stated by clauses of its own, and an invariant (`coherent`, `sound`, `faithful`)
ties the parts together. What holds across functions is stated by the public proof
functions whose names begin with `law_`.

Some values are kept for the proofs alone, in fields of type `Ghost`: the content
of the files that were sent or published, the messages that went out, the tasks
that were started. They are not there when the program runs.

Paths are texts. Whether they are read as Windows reads them, with drives, shares
and both separators, is an argument of the functions in `paths` and `walk`.

Floating-point input values are carried as their bits; the library compares them
as integers in the order of the doubles.
