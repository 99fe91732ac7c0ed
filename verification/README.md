# computer-use-linux

A permission broker that lets local programs see and operate a Linux desktop, one approved
session at a time. The person at the machine approves, pauses, resumes and ends sessions in a
panel; programs only ask.

- `src/` is the library: who may do what and when, how messages and pictures are framed, how
  keys and pointers are planned, how windows, displays and processes are told apart. Every
  function states what it does in `requires` and `ensures`, and Verus proves it. Proof functions
  that are public state properties of the whole, such as that an observation serves one action.
- `tests/` runs the library on examples.
- `app/` is the program around it: sockets, processes, Wayland, X11, D-Bus, the panel. It
  performs what the library decides; only what needs floating point is computed there.

The few calls into other crates stand in functions marked `external_body`. Their comments say
what is taken from the crate without proof.
