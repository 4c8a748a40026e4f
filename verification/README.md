# graphdblite

A Cypher front end and the core of a query engine over a property graph. The library in
`src/` is verified with Verus; `app/` is ordinary Rust around it.

## The library

* `parser/` – the grammar, a PEG recogniser over it, and the functions that build statements
  from what was recognised. `parser::resolve` and `parser::validate` put values in place of
  parameters and tell of those that are missing. `parser::decimal` tells which numbers fit in a
  binary64 value. `parse_cache` keeps parsed statements.
* `ast`, `ast_model`, `ast_copy` – statements and expressions, their mathematical views, and
  their copies.
* `value`, `order`, `float`, `text`, `types`, `assoc`, `queue` – values and their order, errors,
  and the small collections that the rest uses.
* `record`, `binding` – rows by name and rows by slot, and how nodes, relationships and paths
  are bound in them.
* `plan` – logical plans.
* `source` – the questions that execution asks of a graph.
* `exec/` – execution. `run` takes plans that read; `query` is the way in. `change`, `assign`
  and the `merge` modules decide what a write does; `write_run`, `merge_run` and `merge_lone`
  go through the rows of a write one step at a time.
* `iter`, `iter_slot` – rows pulled one by one, by name and by slot. What `iter` pulls by name is
  projected by `exec::pull` and sorted by numbers and texts alone; `exec::laws` says when that
  comes to the same as running the plan.
* `exec::laws`, `exec::sort_laws`, `exec::merge_laws`, `binding_laws`, `slot_laws`,
  `parser::parameter_laws`, `parser::size_law`, `parser::chain_law` – what holds across functions.
* `slot_sight`, `slot_groups`, `slot_plan_laws` – when the slots of a plan's rows are enough: where
  the schemas hold what the plan reads, it gives by slots what it gives by names.

Contracts speak of views: `x@` is the mathematical value of `x`, and a result is stated as a
spec function of views.

## Graphs

Execution reads a graph through the trait `source::Source`, and evaluates expressions through
it too. Nothing is taken for granted about an implementation. Contracts say what is returned
by a source that is *steady*, one that answers the same question the same way for as long as
it is borrowed; `source::model` stands for its answers. A snapshot of a store is steady. Of
another source nothing is said of the rows, but execution comes to an end with it too.

The limits of an `ExecContext` hold for every operator: none gives more rows than
`max_result_rows`, by names, by slots or inside a subquery.

Writes are not made by the library. It says which changes a row calls for, the caller makes
them, and hands back the identities that came of it.

## The program around it

`app/` holds a cache behind a lock, arithmetic on floating-point numbers, the trait of a store
that can be written to, the loops that carry out changes, and `execute_cypher`.
