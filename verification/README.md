# Mist

Mist gives a Mac near-native access to the files inside a Linux VM. The host keeps a replica of the
guest's tree and a content-addressed cache of its files, and serves both over a loopback NFS server;
changes go to the guest, and the guest's journal keeps the replica fresh.

`src/` is the logic of all that, verified with Verus: every public function has a contract, and the
laws that hold across functions are public proof functions beside them.

| Module | What it holds |
|---|---|
| `xdr`, `rpc`, `server` | the wire format, call headers, record marking |
| `handle` | file handles that only the host can mint |
| `surface` | what a tree is asked, and what it answers |
| `nfs3`, `mount3` | the NFSv3 and MOUNT programs |
| `nfs41` | NFSv4.1: sessions, compounds, opens, delegations and their recall |
| `cas` | the content cache: manifests, blobs, eviction, scrubbing |
| `sidestore` | the side files of desktop clients, which never reach the guest |
| `share` | a share: reads through the cache, writes behind the reply, commits |
| `session` | sessions with a guest: set-up, journal, calls |
| `conflicts` | collisions between the two sides |
| `resolve` | finding a guest on the local network |
| `config`, `config_writer` | the configuration, and editing it in place |
| `control`, `request` | what the daemon is asked over its socket, and how it answers |
| `mount`, `doctor`, `facts` | mounts, and the checkup with what it knows from texts |
| `fsx`, `bench` | the measuring tools |
| `data`, `table`, `sort`, `bytes`, `chars`, `text`, `hex`, `base64`, `fnv`, `digest`, `bufpool`, `types` | what the rest is built from |

A function that needs something from outside takes it as a value. Where a request needs several
answers, such as an NFS call over a tree or the set-up of a session, it is a step function: given
the answers so far, it says what to ask next or what the result is. `app/` performs those steps: the
sockets, the files, the database, the system's tools and the command line. The guest's wire protocol
is plugged in through the traits of `app/guest.rs` and `app/session.rs`; `dir:PATH` serves a local
directory in a guest's place.

`tests/` runs the library from outside.
