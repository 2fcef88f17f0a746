# finlang_core

A small language for financial programs — minting, asset transfers and collateralised
loans — with a static checker for types, linear resources and effect policies, a tree
interpreter, a bytecode compiler with a stack verifier and a virtual machine, state digests
and execution statements, and Schnorr proofs over the Ristretto group.

The library is verified with Verus against contracts stated over mathematical models of its
data. The few calls it makes outside itself — SHA-512 and the Ristretto group in `zk`,
`String::push` in `text`, `char::is_alphanumeric` in `lexer` — go through small trusted
wrappers whose contracts say what the called function does.

* `src/` — the verified library. The pipeline is `lexer` → `parser` → `type_checker`
  (`compiler::compile_source` runs all three), then either `interpreter` or `bytecode`
  (compiler and verifier) and `machine` (the VM). `state` and `abstract_interpreter` hold the
  ledger and its operations, `digest` the commitments, `zk` the proofs. `table`, `keys`,
  `text` and `decimal` are the supporting data structures, and `render` writes trees,
  instructions and tokens as text.
* `tests/` — the test suite.
* `app/` — the command-line program: file and network access, argument handling.

The laws of the library stand in `src/` as public proof functions whose names begin with
`law_`.
