# dbt_trace

Trace and log configuration for the dbt command line, and the pieces of its test harness,
written and verified with Verus.

- `src/` is the library. Every function states what it computes, and Verus proves it.
  - `config`, `layers`, `init`, `command`: from the arguments of a command to the sinks it logs
    to, and to the end of tracing.
  - `feature_handles`, `feature`, `record`, `warn_error_options`: configuration that changes at
    run time, and what it does to log records.
  - `normalize`, `patterns`: what differs from run to run in the output of a command.
  - `task_seq`, `task_run`, `file_walk`, `utils`: the test harness.
  - `path`, `platform`, `text`, `level`, `error`: the plain values all of this works on.
  - `path_laws`, `platform_laws`, `layer_laws`, `task_laws`, `name_laws`: what holds of several
    functions together.
  - `outside`: the calls into other crates, with what is relied on.
- `app/` is the program around it: arguments, files, environment, standard streams.
- `tests/` runs the library.

Steps that touch the file system are decided in the library and performed in `app/`: the library
runs through the steps and calls a function of `app/` to perform one.
