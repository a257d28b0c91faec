# fankor_macros

The code generators of the Fankor framework for Solana programs, with their
decisions verified in Verus.

- `src/` is the verified library. It works on plain descriptions of Rust
  syntax (`syntax`), and decides what the generators do: the checks of the
  `Fankor.toml` configuration (`config`, `pubkey`), the argument lists of the
  attribute macros (`meta_args`, `attribute_args`, `instruction`,
  `accounts`, `program`), the numbering of discriminants and error codes
  (`discriminants`, `error_code`), the `fankor` attribute of types and the
  Borsh serializer plans (`type_options`, `borsh_plan`), the zero-copy
  readers and TypeScript bindings (`zero_copy`, `ts_gen`), the rules of the
  `#[account(...)]` attributes of instruction accounts (`account_field`,
  `instruction_accounts`, with their laws in `field_laws`), the variants of
  instruction enums (`instruction`) and the derived names (`naming`). Each public
  function states its result exactly; the `law_*` proof functions state the
  properties that span functions.
- `app/` reads Rust syntax with `syn`, hands the library its description,
  writes the generated code with `quote`, and reads `Fankor.toml`.
- `tests/` runs the library on concrete inputs.
