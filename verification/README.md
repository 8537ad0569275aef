# soldb_program

SolDB is a Solana program that keeps tables and key-value pairs in
program-derived accounts. A table account sits at the address derived from
the table's name and its owner's key; a value account sits at the address
derived from the key, the table account's key and the owner's key.

Instructions: `InitTable` creates a table, `Insert` creates a value account
and records the key in its table, `Put` overwrites a value (resizing its
account and settling rent with the owner), `Delete` empties a value account
and hands its lamports to the owner.

## Layout

- `src/` is the library, verified with Verus:
  - `codec.rs`: the byte layout of instruction and account data, with the
    proofs that reading gives back what writing wrote;
  - `accounts.rs`, `instructions.rs`: the account data and the instructions,
    their encodings and round-trip laws;
  - `error.rs`: the program's error codes;
  - `address.rs`: program-derived addresses (Solana's address search);
  - `state.rs`: the accounts an instruction names and the actions that change
    them, with what each action does and the conservation of lamports;
  - `processor.rs`, `processor/`: the processor of each instruction, which
    answers with the list of actions that carry it out (or the error that
    refuses it), and the laws of what those actions leave behind;
  - `utils.rs`: the actions that create a program account.
- `app/` is the on-chain glue: it reads the accounts the runtime hands over,
  fetches the rent sysvar, calls the library and performs its actions
  (system-program calls, lamport moves, data writes).
- `tests/` runs the library on concrete ledgers.
