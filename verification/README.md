# collateral

A verified model of three cooperating smart contracts for NFT-backed loans:

* `oracle` — a key/value price store that only its owner writes;
* `sign_transfer` — a relay that builds the EVM `transferFrom` call for an
  ERC-721 token (selector and ABI-encoded arguments);
* `collateral` — the lending contract: registered collections, loans
  (limit, open amount, last change) and deposited NFTs, interest accrual
  with saturating arithmetic, and the deposit / withdrawal / repayment
  messages, each split at the point where the chain is called.

`src/` is verified with Verus. `table.rs` holds the keyed table that backs
the contracts' storage maps; `encoding.rs` the hexadecimal and ABI encodings
(through the `hex` and `ethabi` crates). Laws about the contracts are proof
functions named `law_*` next to the code they speak of.

`app/` binds the verified state machines to a `Host` that stands for the
contract runtime, and `tests/` exercises the library on concrete values.
