# aiXos Phoenix — verified core

The logic of the aiXos sovereign desktop stack as a Verus library. Verus
proves every function in `src/` free of panics and overflow, and proves the
contract of each function that states one (constructors of types without
fields state none).

- `src/kernel` — boot contract, process table, bump heap, `.axpkg`
  verification, and the sovereign store on the block device.
- `src/edisondb.rs`, `src/axfs.rs` — the in-memory key/value store and file
  system.
- `src/axon_interp.rs`, `src/shell` — the AXON script interpreters.
- `src/input.rs` — key map, key decoding, pointer state, device bring-up.
- `src/net` — AWP framing and the virtio-net transmit ring.
- `src/gpu` — framebuffer, drawing primitives, cursor, desktop layout, the
  display lists of every screen, the painter that turns a list into pixels,
  the virtio-gpu command bytes, ramfb and virtio-gpu bring-up.
- `src/asl.rs`, `src/init.rs`, `src/identity.rs`, `src/haniel.rs` — boot
  stages, orchestration and the protection domains' handshakes.
- `src/mmio.rs` — the register-level steps that device bring-up hands to
  the code owning the hardware.

`app/` holds what touches the machine: MMIO, DMA memory, the console, the
boot flow of the Phoenix-Desktop domain, and the calls into the ASL
protection-domain crates. `tests/` exercises the library.
