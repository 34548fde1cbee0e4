# lantun

lantun exposes a local port to other machines over an encrypted peer-to-peer tunnel. A host forwards
the traffic of its peers to a local service; a client binds a local port and forwards what arrives
there to the host. Both TCP and UDP are carried.

This crate holds what lantun decides and computes, with contracts that Verus proves.

- `protocol`, `wire`: greetings and requests, and how they are framed on a stream.
- `forward`: datagrams on a stream, and the two ends that forward them.
- `tunnel`: builders, the supervisor that keeps a client connected, the peers of a host.
- `cli`: the configuration, the subcommands, and running all enabled tunnels.
- `engine`: tunnels of the first protocol, with their own configuration and command line.
- `staged`: tunnels whose type says whether they run.
- `key`, `addr`, `duration`, `text`, `named`, `table`, `error`: what the others are made of.

Everything that waits, reads or sends is in `app/`. It performs the actions that the library asks
for and hands back the events. The program answers to three names: `lantun`, `lantun-engine` and
`lantun-staged`.
