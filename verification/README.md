# Btrfs CSI driver, verified

The logic of a CSI driver for Btrfs with replication between nodes: volumes and their profiles,
snapshots, gossip between nodes, quorum leases, replication with retries, maintenance, and the
authenticated and encrypted wire protocol. The library is written in Verus: what each function
does is stated in its contract and proved.

## Layout

- `src/` is the library. Everything in it is verified.
  - `text`, `number`, `numeral`, `quantity`, `table`, `time`, `identifier`: texts, numbers, sizes
    with units, small maps, points in time, identifiers.
  - `protocol`: frames, payloads, authentication, encryption, connections.
  - `ops`: command lines for Btrfs and what they print, extended attributes, load of the machine.
  - `exchange`: configuration, gossip, quorum, replication, receiving, maintenance, volumes.
  - `csi`: the identity, controller and node services and the server.
- `tests/` runs the library on concrete values.
- `app/` is the program around the library: arguments, configuration file, sockets, commands,
  JSON, timers and everything that is floating point.

Where an operation alternates between decisions and work on the machine, the library holds it as a
state machine: `step` takes what an action has come to and tells the next one. The program
performs the actions. The creation of volumes and snapshots, publication, rounds of replication
and the receiving of streams are built this way.

## What is proved

Besides the contracts, the library states laws as public proof functions. Among them:

- a message that is encoded and decoded is the same message, and what is received over a
  connection is what was sent;
- only holders of the shared key are welcome, and a fresh token is accepted;
- a volume is published writable only with a lease, and never in conflict;
- no lease is granted in conflict, a lease takes the votes of more than half of all nodes, and so
  two leases share a voter;
- a node to which a transfer failed is avoided until it comes back, and a failing volume is given
  up after a bounded number of rounds;
- creating a volume or a snapshot again gives the one that is there;
- pages of a list, taken one after the other, give the whole list;
- an accepted volume name stays inside the data directory.

## What is trusted

Calls into other crates and the parts of the standard library that have no specification stand
behind small wrappers marked `#[verifier::external_body]`. The comment above each names the
function that it calls and says what is claimed of it.
