# hoorayhug

A TCP relay whose traffic can be disguised. `src/` is its verified core; `app/` is
the relay around it, with sockets, tasks and the process-wide settings.

| module       | what it holds                                                          |
|--------------|------------------------------------------------------------------------|
| `clock`      | the wall clock                                                         |
| `rng`        | the generator of random numbers                                        |
| `prefix`     | the format of the prefix that opens a disguised connection             |
| `generate`   | how a prefix is drawn, and that its header announces its garbage       |
| `handshake`  | the opening of a connection, from either side                          |
| `mode`       | plain, client and server connections                                   |
| `buffer`     | the buffer of one direction: read lengths, mask, what comes next       |
| `stream`     | what a whole direction does to the stream that passes through it       |
| `connection` | that a client and a server together are transparent                    |
| `transfer`   | the life of a relay: copy, shut down, done                             |
| `listener`   | the decisions of the loop that accepts connections                     |

A connection passes two relays, a client and a server. The client sends a prefix of
random length, which the server reads to its end; a connection without such a prefix
is kept waiting and then dropped. Both mask every byte that they relay, so that the
stream comes out of the second as it went into the first.
