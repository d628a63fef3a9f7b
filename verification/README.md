# egui_citizen (verified)

Dock panels as first-class citizens: each panel gets a persistent identity
(`CitizenId`), reactive lifecycle state (`CitizenState`, built on
`egui_mobius_reactive::Dynamic`) and takes part in message dispatch through a
central `Dispatcher`, whose activation keeps exactly one citizen active.

Layout:

- `src/` — the library, verified with Verus.
  - `message.rs` — `CitizenId`, `CitizenMessage`.
  - `state.rs` — `CitizenState`.
  - `dispatcher.rs` — the registry, the queue, activation and its
    mathematical description.
  - `laws.rs` — proved properties: one-hot activation, what activation
    announces, repeated activation, independence from registration order,
    registration, queue order.
  - `reactive.rs` — what is assumed of `Dynamic<T>`.
- `tests/` — runtime tests.
- `app/` — the edge: `activate` (reads the `active` flags, lets the
  dispatcher decide, stores what it returns), the `Citizen` trait, and `f32`
  views of locations (the library carries them as bit patterns).

The registry is a `Vec` of `(CitizenId, CitizenState)` pairs in registration
order, with the invariant that no identifier occurs twice, found by a linear
search. vstd specifies `HashMap` only for keys with a verified hash model,
which `String` does not have, so a map keyed by the identifier could not carry
a contract. Activation visits citizens in registration order; that order is
proved not to matter beyond the order of the messages
(`laws::lemma_activation_ignores_registration_order`).

Every `CitizenState` field is a shared `Dynamic` cell. Verus does not model
what such a cell holds, and reading or writing one locks its mutex, which
panics when the mutex is poisoned and blocks when the calling thread already
holds it. The verified code therefore never reads or writes a cell:
`Dispatcher::activate` takes the values the flags read and returns the values
to store, and its contract fixes both the queued messages and those values
(one-hot). The reads and writes themselves happen in `app/`.
