# Vero Core

The entry points of the Vero Core contract on Soroban: who may call what and when, what each call
stores, which of the contract's modules it puts to work, which events it publishes, and how it ends.

An entry point alternates its own decisions with the work of other modules: validating addresses,
the circuit breaker, roles, guardians, tasks, token locks, rewards, upgrades. In `src/` it is a
script, a sequence of steps. An `Invocation` carries the script out. It does the steps on instance
storage itself and hands out every other step as a request, one at a time; whoever drives it answers,
and it goes on from there or ends. All of `src/` is verified with Verus.

| Module       | What it holds                                                              |
|--------------|----------------------------------------------------------------------------|
| `types`      | addresses, roles, errors, events, requests, the calls of a batch           |
| `storage`    | the SDK's instance storage and what is trusted of it                       |
| `ledger`     | the contract's settings, by key and by type                                |
| `script`     | steps, scripts, and the plan behind a script: its gates and its effects    |
| `plans`      | the plan of every entry point                                              |
| `entry`      | `VeroContract`: the entry points, and the settings that can be read        |
| `invocation` | carrying out a script, request by request                                  |
| `trace`      | what comes of a script on given answers, and what holds of every script    |
| `laws`       | what holds of the entry points                                             |

`app/` is the contract in the SDK's types: it drives the invocations, carries out their requests
through the contract's modules (the trait `Modules`), turns the errors into their numbers and the
panics into panics, and passes on the questions that only a module can answer.

`tests/` runs the entry points on the SDK's test host.
