# edge_rules

The value-level core of the EdgeRules business-rules language, written in Verus: every
function carries a contract, and Verus proves the code against it.

What is here:

- numbers held exactly (whole numbers, fractions and the special values that stand for
  missing data): `numbers`, with the integer ranges of `ranges`;
- durations: `duration`, `iso_parse`, `iso_format` (ISO 8601 text), `duration_totals`,
  `duration_order`, with the laws in `iso_laws`;
- dates and times: `calendar`, `temporal` (calendar arithmetic, differences, parsing through
  the `time` crate), `fields` (`.year`, `.hour`, ... selections), laws in `temporal_laws`;
- strings: `text`, `decimal`, `string_functions`, `value_ops`, `template`, laws in
  `string_laws`;
- lists: `list_ops` (sublist, append, concatenate, insertBefore, remove, reverse, partition,
  all, any) and
  `filters` (filter conditions, selection by position), laws in `list_laws`;
- values: `values` (the values of the language, how they are shown, comparison and
  arithmetic on them, casting to list types, filtering lists by a condition, fields of
  dates, times and durations), `list_values` (value equality, distinct and duplicate items),
  `value_tree` (evaluating a variable path against the values of evaluated contexts);
- types and linking: `types`, `type_parse`, `link_rules` (argument checks of the built-in
  functions), `operator_types`, `expression_types`, `call_checks`, `variables`, and
  `context_tree`, the tree of contexts in which variable paths are browsed and linked
  (undefined variables and reference loops are reported);
- errors and messages: `errors`, `messages`, `eval_errors`, `portable`;
- the rest of the front end that works on plain values: `operators`, `builtins`,
  `names`, `names_order`, `annotations`, `char_stream`, `node_data`, `utils`.

The calls into the `time` crate, and the few std calls that vstd does not specify (building
a `String` from characters, Unicode case mapping, `char::from_u32`), sit behind small
`#[verifier::external_body]` functions in `temporal`, `values`, `text`, `utils` and
`string_functions`, each with a doc comment saying what its contract claims.

`tests/` holds the executable tests; they run with the real `time` crate linked.
