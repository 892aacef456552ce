# xpay

A verified model of the xpay runtime module (items for sale, diners' bills,
profiles, purchases) and of the doughnut certificate checks.

- `src/types.rs`: ids, records, origins, errors, events.
- `src/storage.rs`: the module's storage and its abstract model `XPayModel`,
  with the invariant `XPayModel::wf`.
- `src/xpay_diner.rs`, `src/xpay_profile.rs`: bills and profiles.
- `src/xpay.rs`: the module's calls; a purchase answers a `PurchaseTicket`
  holding the `Payment` the asset modules carry out, and `settle_purchase`
  takes that ticket back to record the sale.
- `src/codec.rs`, `src/doughnut.rs`: the codec encodings the doughnut
  checks use, the encoding of a certificate that its issuer signs
  (`signed_message`), and the doughnut checks; the signature check itself is
  a function the caller passes in.
- `src/laws.rs`: properties that span calls.
- `app/lib.rs`: the clock, and the driver that runs a purchase against the
  asset modules.

The floorplan calls (`add_floorplan`, `remove_floorplan`, `change_floorplan`)
and the floorplan storage are not part of this crate: their behaviour lives in
an `xpay_floorplan` module whose source was not available. Only the
`Floorplan` record is kept. There is no README or other documentation for the
module beyond its doc comments.
