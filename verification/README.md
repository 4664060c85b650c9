# uc2_node

A node of the `ultima_cluster` replicated log: it takes part in elections,
replicates and records the log, serves linearizable reads, and changes the
cluster's membership on an operator's request.

The library under `src/` is the node's logic, verified with Verus. It does no
input or output. What the node decides it returns as an ordered list of
effects, which the daemon under `app/` performs.

| Module | What it holds |
| --- | --- |
| `node::consensus`, `node::gate` | what follows from each step of the election, and when intake is open |
| `node::reads`, `read_round` | the read barrier: probe rounds, and which reads a quorum confirms |
| `node::admin`, `audit` | membership requests: who may ask, what is answered, what is recorded |
| `node::recover`, `node::boot`, `recovery` | what a boot recovers, and forcing a lone survivor |
| `node::ingress`, `node::markers`, `node::archive`, `node::duty` | draining ingress, durable markers, the archive's commands, the order of a duty cycle |
| `node::crypto`, `node::durability`, `node::cluster` | key exchange upkeep, durability posture, configurations and routing |
| `backup` | what is copied and in which order, and whether a copy is whole |
| `config_file`, `preflight` | configuration, its defaults, and startup refusals |
| `obs`, `daemon` | log records, metrics, health probes, derived events |

Contracts are stated over the views of the types. What holds across functions
is proved in public proof functions whose names begin with `law_`.

`app/` is the daemon. Its `engine` drives the library over the cluster's own
crates (log, network, consensus, crypto, protocol, journal), which are built
beside this one.
