# moonshot (verified core)

The verified part of a compile-time Bayesian-inference pipeline whose
filters (Kalman, Gamma-Poisson, bearing-only EKF, Riccati solver) are
floating-point code.

- `src/` — the library, verified with Verus:
  - `macro_input`: the `bayesian_filter!` input `spec = "<path>", name = <Ident>`
    (layout read here, literal and identifier read by `syn`);
  - `trace`: report lines of the embedded filter's QEMU trace;
  - `tasks`: the workspace tasks and the `verify` pipeline's decisions;
  - `ticks`: SysTick tick accounting of the embedded update;
  - `loader`: a model file's bytes to its text;
  - `spec`, `text`: dimension newtypes and character helpers.
- `tests/` — tests of the library.
- `app/` — the command-line shell: process and file I/O, RON loading, and
  the floating-point filters and harness.
