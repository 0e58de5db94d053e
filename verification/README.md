# cycle_checker

Packs declare the packs that they depend on. A reference to a constant of a pack that is not
declared is an implicit dependency. This library reports an implicit dependency if declaring it
would close a dependency cycle, and shows a shortest such cycle.

- `src/` is the library, verified with Verus.
  - `cycle`: the checker. `Checker::check` takes a reference, the packs, and what the rules of the
    packs say of the reference.
  - `pack_checker`: which references are implicit dependencies, and what a violation is made of.
  - `dependency`: the graph of declared dependencies, and shortest paths through it.
  - `graph`: the graph type and the search of the `petgraph` crate, with what is trusted of them.
  - `pack`, `paths`, `text`: packs and references, paths as mathematics, text for messages.
  - `laws`: what holds of the whole, as proofs.
- `app/` shares a checker between threads and turns its failures into `anyhow` errors.
- `tests/` runs the library.
