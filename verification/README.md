# hbbs

The rendezvous server of a remote desktop, as a verified library and a thin network layer.

`src/` holds what the server decides: who may register under which id, who is let in, what a peer
is told, over which connection an answer goes back, when a silent websocket is given up, what the
console answers, and what the options ask for. Every function states in its contract what it
returns and what it changes, and Verus proves it. Laws that relate several functions stand beside
them as proof functions whose names begin with `law_`.

`app/` holds the sockets, the tasks, the store and the wire format. It hands the library decoded
messages and carries out the orders that come back. The wire format is that of `hbb_common`, which
is not published as a crate; put it on the path to build `app/`.

`tests/` runs the library, together with the crates that it calls.
