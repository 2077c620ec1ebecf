# openshell

A Verus library with the decisions of a sandbox platform: which authority a sandbox
may have, who may change it, how requests pass through middlewares and
interceptors, and what is run, stored and reported on the way. Every function of the
library has a contract that Verus proves. What only the world can answer (processes,
files, clusters, solvers, clocks) comes in as a value or through a small trusted
wrapper that says what is believed of it.

## Layout

- `src/prover`: policies, their meaning as sets of actions, and containment of one
  policy in another, decided with Z3.
- `src/managed_policy.rs`, `src/managed_settings.rs`: the managed maximum, admission of
  authority against it, and the requests that set, get and delete it.
- `src/middleware`, `src/l7_middleware.rs`, `src/policy_middleware.rs`: supervisor
  middlewares, chains of them on HTTP requests, and their part of a policy.
- `src/interceptors`, `src/adapters`: gateway interceptors, the planning of who is
  asked, reviews step by step, and the gateway's messages as JSON.
- `src/slurm`: sandboxes as Slurm jobs.
- `src/kubernetes_secrets.rs`, `src/provider_profile_catalog.rs`,
  `src/sidecar_control.rs`, `src/config_command.rs`, `src/gpu.rs`, `src/xtask`:
  credentials, provider profiles, the sidecar's control channel, configuration files,
  GPU requests and development tasks.
- `src/text.rs`, `src/ordered.rs`, `src/json.rs`, `src/proto_struct.rs`,
  `src/doubles.rs`, `src/digest.rs`, `src/paths.rs`, `src/listing.rs`: what the others
  are made of.
- `app`: the command line, files, processes and connections around the library.
- `tests`: tests of the library from outside.

## Reading the contracts

Executable values have a content: `@` for texts and bytes, `deep_view()` for structures,
`shown(..)` for results. Contracts equate the content of what a function returns with a
spec function of the content of its arguments. Proof functions whose names begin with
`law_` state what holds of several functions together.
