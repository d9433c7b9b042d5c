# overlay

Keeps the overlays of OpenVR clients in a runtime that shows them through OpenXR.
Clients make overlays, find them by key, change them, and put textures onto them. Frame
by frame, the compositor collects a layer for every visible overlay with a new frame.

- `src/` is the library. Its behaviour is stated in contracts and proved by Verus.
  - `manager.rs`: the overlay manager and its requests
  - `texture.rs`: putting a texture onto an overlay, step by step
  - `overlay.rs`, `session.rs`: an overlay, and what is kept of a session
  - `table.rs`: the state of the manager as a mathematical value
  - `laws.rs`: what holds of several requests together
  - `slots.rs`: the stores of the `slotmap` crate, and what is taken on trust of them
  - `handle.rs`, `key_index.rs`: handles, and handles by key
  - `vr.rs`, `xr.rs`: the values of the two interfaces
- `app/` is the layer around it: pointers from clients, drawing with Vulkan, OpenXR
  calls, and arithmetic on floating-point numbers.
- `tests/` runs the library.

Floating-point numbers are carried through the library as bit patterns.
