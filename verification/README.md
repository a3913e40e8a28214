# rgb_verify

Verification of RGB smart contracts, written and proved in Verus.

A contract is evaluated by reading the operations of a consignment one after the other. Each
operation is identified, its seal definitions are compared with the cells it defines, the seals of
the state it destroys are looked up and their closing by a witness is verified, and the codex of the
contract runs its scripts on it. What is accepted is applied to the contract.

- `src/` is the verified library. `model.rs` says what the verification of one block comes to,
  `verify.rs` is the procedure with its contracts, `journal.rs` records what it asks of a contract
  and does to it, and `laws.rs` holds what is proved of it as a whole. The virtual
  machine of `ultrasonic` and the confined maps of `amplify` are called behind small trusted
  functions, each with a comment on what is believed of it.
- `app/` connects the library with contracts, readers and seals over the types of `ultrasonic` and
  `single_use_seals`, reads the environment and reports timing.
- `tests/` runs the library, with bitcoin seals of `bp-core` and with plain ones.
