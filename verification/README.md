# soro-fuzz

A property-testing and fuzzing engine for Soroban smart contracts, and the
job-runner backend that schedules fuzzing campaigns against a fixed list of
contracts and reports what they find.

The library (`src/`) is verified with Verus. It holds the logic:

- `command`, `auth`, `harness`, `violation`: how a contract call's result is
  classified, which pool addresses authorize a step, and when a generated
  run stops and with which finding (an undeclared panic always is one).
- `invariants`, `strategies`: the reusable post-step checks and the
  edge-biased generators for amounts, addresses, bytes, maps and time.
- `targets`, `config`, `output`, `runner`, `worker`, `store`,
  `mock_store`, `progress_hub`: the backend's target registry,
  configuration, the reader of a fuzzer's output, the runner's command line
  and result, the worker's decisions, and the lifecycle of campaigns, runs,
  jobs and findings.
- `api`: request validation, answers and the live progress stream.
- `text`, `ids`, `instant`: text, UUID and time helpers.

`app/` is the program around it: reading the environment, Postgres, the
HTTP server, subprocesses with time limits, and the `soroban-sdk` host
environment the engine executes contracts in.

`tests/` exercises the library on concrete values.
