# qubit_datatype

Policy-driven conversion of runtime values whose source type is known only at
run time, written in Verus: every conversion states in its contract which
value or which error it yields, and Verus proves the code against it.

## Layout

- `src/` — the verified library.
  - `data_type`, `error`, `messages`, `policy`, `options`: type descriptors,
    value-free errors and their messages, and the conversion policies.
  - `text`, `numeric_text`, `decimal`: the character model, the decimal
    grammar (sign, fraction, exponent) and canonical decimal text.
  - `converter`, `convert_to`, `converters`: the runtime source value, its
    conversions to every supported target, and batch conversion.
  - `big_integer`, `big_decimal`: arbitrary-precision numbers held as plain
    values; `num-bigint` and `bigdecimal` do the arithmetic, parsing and
    display behind small trusted wrappers.
  - `url_value`, `temporal`: URLs and dates/times, parsed and formatted by
    `url` and `chrono` behind trusted wrappers; canonical text shapes are
    checked by verified code.
  - `duration`, `boolean_options`, `collection_options`: durations and their
    units, boolean literal sets, scalar-string splitting.
  - `exactness`, `counting_writer`, `conversion_string_writer`,
    `capabilities`: the integer side of float exactness, a byte-counting
    sink, a byte-budgeted text writer, and the table of supported
    conversions.
  - `string_map`: the key order of string-map entries.
  - `laws`: properties relating several functions, proved once for all
    inputs.
- `tests/` — tests on concrete values.
- `app/` — unverified glue: Serde and `Display` forms of the library types,
  conversions to the outside crates' own types, floating-point targets, and
  JSON string maps.

## Notes on behaviour

- Text converted to an integer, fixed-width or arbitrary-precision, may be
  written as any decimal number: a sign, digits with at most one point, and
  an exponent. A fraction is rejected as precision loss under the exact
  policy and truncated toward zero under the lossy one.
- Duration text is a count of digits with an optional unit suffix; a bare
  count takes the configured unit.
- Conversions take no resource limits: the budgeted sessions and per-call
  limits are not part of this library.
