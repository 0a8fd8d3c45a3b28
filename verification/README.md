# nyanpasu_core

The logic of a manager for Clash-compatible proxy cores, verified with Verus: which
core can do what, how its configuration is prepared and classified, how it is
launched, watched, reconfigured, switched and stopped, and what is kept of what it
prints.

The library decides; it does no input or output. Wherever a decision waits for the
outside (a file, a socket, a child process, a clock) it is a small state machine: a
*flow* takes an event, updates the state it was given and returns the next action.
Every step has a contract, and the laws that hold across steps are `law_*` proof
functions beside the flows that they speak of.

- `src/` holds the verified library.
  - `text`, `time`, `value`, `tree`, `path`, `yaml`, `platform`: texts, durations,
    configuration documents and paths.
  - `metadata`: families of cores, their versions, features and distributions.
  - `clash_api`: endpoints of the controller, requests to it, and the typed parts of
    its configuration.
  - `config`: sources, prepared configurations, endpoints, the runtime directory, and
    what a change of a configuration takes.
  - `process`, `io`: child processes, their pid records, restarts, and files that are
    replaced as a whole.
  - `health`, `instance`: probes and one epoch of a core.
  - `log`, `log_sink`: records of what cores print, and their archive.
  - `manager`: starting, applying, restarting, switching, stopping and recovering
    across epochs.
- `tests/` runs the library on concrete values.
- `app/` is ordinary Rust around it: files, sockets, processes and tasks that carry
  out the actions and hand back the events.

What is taken from other crates (URLs, YAML, dates, versions, encodings, paths) is
called behind small wrappers whose contracts are not proved; each names the function
it calls and says what it claims of it.
