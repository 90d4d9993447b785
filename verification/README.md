# rathole

A reverse tunnel: clients behind a firewall keep control channels to a server,
and the server forwards its visitors to them, over one data channel each or
over streams of a few shared, multiplexed connections.

`src/` holds what the tunnel decides, as a Verus library: the messages on the
wire, who may serve a service, which channels exist, when connections are asked
for and given up, how services are probed. Each part that waits for something is
a state machine; its contract gives the next state and action for every event,
and the proof functions beside it say what holds over whole runs. Times are
milliseconds of one clock, passed in.

| module | what it decides |
| --- | --- |
| `wire`, `protocol` | how messages are laid out and read back |
| `registry`, `multi_map` | tables by one key, and by either of two |
| `server`, `handshake`, `control` | the server's services, new connections, control channels |
| `mux` | the multiplexed connections of a service |
| `tcp_pool`, `udp_pool` | how visitors are joined with their client |
| `client` | the client's control and data channels |
| `data_channel_handler`, `data_channel_limit` | who takes data channels, and how many there may be |
| `health`, `http_probe`, `dns_probe` | probing services through a SOCKS5 proxy |
| `config`, `constants` | settings and waits |
| `text` | how numbers and other versions are told |
| `outside` | the calls into other crates |

`app/` runs the machines: sockets, tasks, timers and logs. `tests/` exercises
the library on concrete values.
