# sandbox_config

The configuration logic of a sandbox runtime, verified with Verus.

- `src/log_args.rs`, `src/log_level.rs`: the verbosity flags of the command line, and
  the level that they select.
- `src/tracing_plan.rs`: which tracing layers are installed, with which filters, and how
  the capture file of policy denials is opened.
- `src/tls/`: the TLS interception configuration, canonical DNS names, and the routes
  from exact hostnames to listeners on the loopback interface.
- `app/`: the command line flags, the file system and the serialized forms around it.
- `tests/`: tests of the library.
