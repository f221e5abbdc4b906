# netsim

A network simulator for testing networking code: virtual TUN and TAP interfaces, and
simulated devices (routers, hops, hubs, NATs, gateways, Ethernet/IPv4 adaptors) that carry
packets between them.

The logic is written in Verus and proved against its contracts:

- `src/` is the verified library: addresses and networks (`addr`, `network`, `cidr`), the
  packet formats (`ipv4`, `ipv6`, `ip`, `udp`, `arp`, `icmpv6`, `ethernet`, `datagram`,
  `checksum`, `bytes`), the devices and their state (`device`, `gateway`, `hub`, `hops`,
  `frame_buffer`, `delay_queue`), and the settings and kernel request layouts of interfaces
  (`iface`). Random choices go through the trusted wrappers of `random`, which call `rand`.
- `app/` is ordinary Rust around the library: system calls that create and configure the
  devices, the tokio tasks that run the devices' state machines, channels, the timing and loss
  adapters (which use floating point), and machines that run in network namespaces of their own.
- `tests/` exercises the library on concrete values.
