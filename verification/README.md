# rgc

The core of a resumable `git clone`, verified with Verus: one clone is split into
many small pieces, every piece is written down before it is worked on, and a run
that was cut short is taken up where it stopped.

- `src/` is the library. It decides everything and does no input or output: what a
  remote offers (`refs`), how a clone is planned (`planner`), what is kept about it
  (`state`, `ledger`), how a piece is worked on and retried (`piece_run`,
  `scheduler`), what a worker does (`worker`), how a run slows down (`throttle`),
  how a lost state is rebuilt (`recovery`), how repositories are set up and a step is
  fetched (`repos`), how a clone ends (`finalizer`), how two
  repositories are compared (`equiv`), the commands of git (`gitio`) and the flows
  behind the commands of the program (`cli`).
- `app/` is the program around it: arguments, files, locks, threads and git itself.
- `tests/` runs the library against played remotes and repositories.

Where outside work and decisions alternate, the library has a machine: it says what
it asks for, the driver does it and hands back what came of it. The contract of each
step is one function from state and event to state, and the laws beside it say what
holds of every run, whatever the driver answers.
