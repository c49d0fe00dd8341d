# teemlab

The verified core of an evolutionary simulation engine: agents with genomes
and brains live in an arena, eat, reproduce with mutation, and are bred across
generations by a selection regime.

`src/` holds what the engine decides with integers, strings and tables, each
function with a contract proved by Verus:

- `config` — the scenario's tables (archetypes, relations, field relations,
  the breeding regime) and the per-species lookups;
- `editor` — structural edits of the archetype list (removal, reordering,
  duplication) that keep the relation table pointing at the same species, and
  the species library's naming rules;
- `library`, `experiment`, `session` — the catalog and compose tray, the saved
  Lab parameters, the breeding dashboard's history;
- `brain`, `genotype` — brains, their families and kinds, the multilayer perceptron's
  topology and the re-homing of its input layer when the number of vision rays
  changes, the gene table;
- `breeding` — match counts, selection candidates, the all-time champion and
  the survivor pool around it, founder seeding, per-match seeds, the
  orchestrator's bookkeeping;
- `record`, `sweep`, `keymap` — the recorder's command line and auto-stop, the
  parameter sweep's knobs and tallies, the key bindings;
- `decor`, `text` — the decor's integer streams, and small text formats.

Scalars (`f32` / `f64`) are type parameters of the core; `app/` instantiates
them and holds the floating-point work, the RON persistence and the drivers.
