# moonshine_core

Verified decision logic for the native Wayland popups of a streaming
compositor built on Smithay.

- `src/` is the Verus library: grab authorization from delivered input
  serials (`serials`, `popups`), the per-seat table of delivered touch
  contacts (`touch`), the rectangle popups are constrained to (`placement`),
  per-popup refresh decisions (`refresh`) and the popup part of the render
  scene (`render`), over saturating logical geometry (`geometry`).
- `app/` is the compositor glue: it reads Smithay's seat, space and popup
  tree, calls the library, and performs the protocol requests.
- `tests/` exercises the library on concrete values.

## Assumptions

The library keys recorded deliveries by client and touch contacts by slot
through the `Identity` trait, whose `same_as` must be exactly equality of
values. It is proved for the integer types in `src/identity.rs`. The
compositor's two key types implement it in `app/` without proof:

- `ClientKey` (`app/session/compositor/popups.rs`), over wayland-backend's
  `ClientId`, which derives `PartialEq` over plain integer fields with the
  pure-Rust server backend;
- `SlotKey` (`app/session/compositor/popup_touch_focus.rs`), over Smithay's
  `TouchSlot`, which derives `PartialEq` over its `Option<u32>` id.

Both implement `same_as` as `self == other`.
