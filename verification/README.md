# gat_borrow

Borrowed-or-owned values (`Boo`) for any borrowed type whose lifetime can be
shortened through a generic associated type (`ReborrowType::Reborrow<'b>`)
and that can produce an owned value, verified with Verus.

- `src/into_owned.rs`: the reborrow traits (`ReborrowType`,
  `ReborrowMethods`, `Reborrow`), owning (`IntoOwnedImpl`, `IntoOwned`),
  viewing owned values as references (`ToRef`), `Boo` and `BooRef`; these are
  also exported at the crate root.
- `src/to_own.rs`: the same design with a single reborrow trait and `ToOwn`.
- `src/derive.rs`: the decisions of the derive that writes the reborrow
  impls (accepted items and the reason for a refusal, the one lifetime,
  option attributes and keys, the order of these checks and the winning
  option, lifetime renaming).
- `src/std_calls.rs`: the two calls into std (`ToOwned::to_owned`,
  `Borrow::borrow`) behind trusted wrappers, and `is_to_owned_of` /
  `is_borrow_of`, which say that a value is one such a call may give.
- `app/lib.rs`: the token plumbing of the derive with syn and quote.

The contracts of `Boo` and `BooRef` state each result through the
postconditions of the trait methods they call (`call_ensures`), so a user's
impl with a precise contract gives precise results; the `lemma_*` proof
functions state the laws that tie the methods together.
