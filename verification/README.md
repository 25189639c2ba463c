# openshell_firecracker

Firecracker microVM sandboxes for a gateway host: tap devices, /30 subnets, dm-snapshot
workspaces, iptables rules and the VM lifecycle, planned and decided in Verus-verified Rust.

- `src/` is the verified library. It never touches the host. A function such as
  `FirecrackerRuntime::create_sandbox` returns a `Run`: it says which action comes next, takes
  the event that answered it, and decides how to go on, down to what is released on which
  failure. Contracts give each plan as a sequence of steps; the laws in `run` say what a run of
  any plan does.
- `app/` performs the actions with tokio, `std::process` and `std::fs`, and releases on drop.
- `tests/` drives whole runs against a scripted host.

Host binaries that the actions name: `firecracker`, `ip`, `iptables`, `sysctl`, `truncate`,
`mkfs.ext4`, `mount`, `umount`, `cp`, `losetup`, `blockdev`, `dmsetup`.
