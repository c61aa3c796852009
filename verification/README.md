# rsigild

A process guardian: it keeps a list of process configurations, starts and
stops them, checks their health over HTTP and restarts them when a check
fails, and shows the newest lines of their logs.

- `src/` is the library, with its contracts and proofs:
  - `config.rs`: the process configuration, its defaults, and where the
    configuration file and the log files live;
  - `daemon.rs`: the manager's bookkeeping of configured and watched
    processes, and what every request does to it, each stated over `DaemonView`;
  - `logs.rs`: decoding a log file (UTF-8, else GBK) and picking its newest lines;
  - `logger.rs`: the look of the application's own log lines;
  - `job_object.rs`: process groups, which only Windows has;
  - `laws.rs`: what holds across the operations;
  - `sys.rs`: the calls into chrono, uuid, encoding_rs and `std`, with their trusted contracts.
- `app/` runs it: files, child processes, the health-check tasks and the
  command loop on standard input.
- `tests/` exercises the library on concrete values.
