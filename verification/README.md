# cjson

Building blocks for JSON text that is checked while Rust code compiles, and
the item reading behind its derive, verified with Verus.

`src/` is the verified library:

- `state`, `state/deserializer`: the state machine that says where a piece
  of JSON text stands (inside an array, an object, a string, after a value),
  and a scanner that runs JSON text through it byte by byte.
- `texts`, `chunk`, `compile_time`, `array_string`, `utf8`: fixed-capacity
  text buffers that grow together with their state, and JSON values held as
  checked UTF-8 bytes.
- `syn_generic` (with `tokens`, `ident_eq`, `parse_meta`,
  `parse_meta_utils`): Rust tokens as plain values, and a reader for item
  headers: attributes, visibility, generics, where clauses, fields and enum
  variants.
- `item_attrs`, `json_item`: the arguments of the `cjson` attribute on
  items, fields and variants, and the description of a struct or enum that
  they yield.
- `expand_props`: expansion of `@` properties in token templates.
- `props`: what a property path asks for on a struct, an enum variant or a
  field, and the walk of `@[..]*` over the fields.
- `expand_errors`, `to_default`, `variant_pat`: how failed expansions are
  reported, the default JSON values of structs and fields put together
  from their parts, and the pattern that takes a variant apart.
- `arg_props`: the properties that the arguments of a struct or an enum
  variant answer (`@name`, `@tag`, and for a variant `@content`,
  `@discriminant`, `@discriminant_or_name`, `@(item.name)`), and the
  externally tagged form of a variant; `json_item` also decides where a
  variant's JSON form comes from and in which tag mode it is written.
- `derive`, `to_json`, `struct_json`, `enum_json`: the derive's reading of
  its input and of the item, with the exact list of errors it reports;
  the JSON form of a struct built from its
  fields (untagged or tagged), and the errors of the JSON forms of an
  enum's variants in their tag modes, where the arguments give no
  template; and the macro call that wraps the generated body. The
  expansion of templates given in arguments (`to(..)` and the like) is not
  in this crate.
- `json_array`, `utils`: smaller pieces of the helper macros.
- `laws`: properties that relate several operations.

`tests/` runs the library on concrete inputs. `app/` converts between the
compiler's tokens and the library's plain tokens.
