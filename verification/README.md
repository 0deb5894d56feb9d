# lact (Windows backend logic)

The decision logic of LACT's Windows backend, verified with Verus.

- `src/nvapi.rs` — the NVIDIA V/F curve: counting announced points, the
  curve reported to clients, turning a clock target into a driver offset,
  resetting the curve, the voltage boost range, the search for the GPU on a
  PCI bus, structure version words, and the driver error messages. The
  laws proved there: the curve lists exactly the editable points in slot
  order; setting a point's clock is stateless (the point reads back at the
  target, its base is unchanged, repeating the request yields the same
  offset); a reset is idempotent; an accepted voltage boost reads back
  unchanged; the GPU search answers with the first matching GPU.
- `src/client.rs` — which named-pipe failures the client retries, and how often.
- `src/daemon.rs` — how the Windows daemon answers each request.
- `src/gui.rs` — the whole-number telemetry labels of the GUI, including the
  sorted list of other clocks (with the proof that the sort orders and
  permutes its input).
- `src/bootstrap.rs` — the layout of the portable GTK runtime and the
  bootstrap log line.
- `src/text.rs` — decimal and hexadecimal rendering of integers.
- `src/platform_types.rs` — the GPU state types shared with clients.

`app/` holds the Windows-only glue: the NVAPI calls through `libloading`,
the named pipe server and client on `tokio`, the start-up of the GUI bundle,
and the serde forms of the shared types.
