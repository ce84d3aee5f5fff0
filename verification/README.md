# lib3mf validation

Validation of 3MF models: the structural rules of the 3MF core specification
and of its material, production, slice, beam lattice, boolean operations,
displacement and volumetric extensions; and the model XML of a model.

- `src/` is the verified library. `model` is the in-memory model (decimal
  values are kept as binary64 bit patterns), `float_bits` compares such bit
  patterns as IEEE-754 does, `error` holds the violations and their messages,
  and `validator` holds one module per group of rules. Every `validate_*`
  function is proved to report exactly the first broken rule that a spec
  function of its module names; `validator::properties` and
  `validator::extension_properties` prove what passing the checks means over
  the model itself.
- Rules that measure geometry (determinants of transforms, mesh volumes,
  lengths, areas, scalar products) receive those measures as bit patterns in
  `validator::Measures`, which must fit the model (`measures_fit`); the
  library compares them with the rules' thresholds.
- Validation handlers of the caller run between the structural and the
  consistency checks (`validate_model_with_handlers`, `run_handlers`);
  `validate_handler_results` and `validate_model_with_handler_results` say
  what their results mean.
- `validator::meanings` states the words of some messages, and what
  passing a check means in both directions.
- `xml` decides the model XML (`3dmodel.model`) as a sequence of events:
  which elements and attributes are written, in which order, under which
  namespaces. Decimal values stay bit patterns there.
- `app/` takes the measures in binary64 arithmetic, formats decimal values
  and writes the XML events with `quick-xml`.
- `tests/` exercises the library on concrete models.
