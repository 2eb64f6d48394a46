# par_lang

The syntax of the Par language, some of its built-in definitions, and the sources that are
open in its playground, written in Verus: what each function does is stated in its contract
and proved.

- `src/parse/` parses the tokens of a source text. `grammar/` says what the productions come
  to, `parser/` has a method for each of them that is proved to come to the same, `outcome.rs`
  says how outcomes combine, `error.rs` and `report.rs` what a failure says and how it is put
  into words, and `laws.rs` what holds of the grammar as a whole. `frame/` proves that what
  tokens are parsed to does not depend on what stands around them, and `places.rs` that types do
  not depend on where their tokens stand.
- `src/language.rs`, `src/types.rs`, `src/program.rs` and `src/location.rs` are what the parser
  makes; `src/model.rs` has a mathematical twin for each of these types.
- `src/builtin/` has the built-in strings and integers. `pattern.rs` says which texts match a
  pattern, `machine.rs` has the machine that reads a text against one, and `search.rs` finds
  matches with it.
- `src/playground/` has the set of sources that are open in the playground.
- `src/arc_text.rs`, `src/big_int.rs`, `src/byte_string.rs`, `src/escape.rs`,
  `src/sub_text.rs` and `src/text.rs` say what is relied on of other crates and of the standard
  library.
- `app/` is ordinary Rust around the library: diagnostics, channels and files.
