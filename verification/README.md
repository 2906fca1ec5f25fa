# usque

A Cloudflare WARP client. It registers a device and offers its tunnel, MASQUE or WireGuard, as a
SOCKS5 proxy. A TCP/IP stack in user space carries the connections, so that no TUN device is needed.

- `src/` is the library, written in Verus. It holds what the program decides and computes: the
  formats (varints, capsules, datagrams, SOCKS5 messages, configurations), the packets, the queues
  of the stack and of the connections, the DNS lookups, the races between addresses, the life of a
  tunnel. Each function states what it does, and laws that span functions are proof functions next
  to them.
- `app/` is the program around it: the command line, files, HTTP requests, sockets, timers and
  tasks. It performs what the library decides and reports back what happened.
- `tests/` runs the library on concrete values.

## Modules of the library

| Module | What it holds |
|--------|---------------|
| `addr`, `text`, `codec`, `vars`, `table`, `ini` | addresses and texts, and how they are read and written |
| `crypto`, `config`, `api`, `register` | keys, configurations, the requests to the API, registration |
| `cli`, `socks` | the command line, and what a proxy is started with |
| `tunnel::varint`, `capsule`, `packet`, `h3`, `masque`, `quic` | the MASQUE tunnel |
| `tunnel::wireguard` | the WireGuard tunnel |
| `tunnel::stack`, `net`, `dns` | the device and the sockets of the stack, and DNS messages |
| `manager` | what a tunnel's manager keeps and does: commands, connections, DNS groups, UDP sessions, sending, pausing and reconnecting |
| `proxy` | the SOCKS5 proxy: messages, connecting, relaying |

Times are nanoseconds since the program was started. Whoever waits for an answer is a number.

## Outside crates

What an outside crate computes is called from the library behind functions whose contracts are
taken on trust; the comment above each of them says what is claimed. They stand next to the code
that uses them.
