# cvkg_components

The logic of a UI component library, verified with Verus: what the controls
do with keys and values, the accessibility descriptions they give, the i18n
lookup, keyboard focus cycling, and the multi-agent workflow orchestrator
(topological planning, step-by-step replay of a run, validation).

Drawing is not part of this crate: the components' geometry and colours are
floating point and their renderer lives elsewhere.

Layout:

- `src/` — the verified library. Each public function states its result in
  its `ensures`; the laws that relate several functions are public proof
  functions named `law_*`.
  - `multi_agent_orchestrator/` — workflow graph types (`types`), planning and
    validation (`engine`), a run's node states and log (`run`), and the
    orchestrator that starts, ticks and stops a run (`orchestrator`).
  - `lingua_tong` — locale, translation tables, lookup with English fallback,
    interpolation.
  - `keyboard_nav` — focus cycling and shortcuts.
  - `interactive/` — buttons, toggles, checkboxes, inputs, selects, clipboard
    buttons, pagination, search bar, segmented control.
  - `aria` — accessibility descriptions.
  - `text` — string helpers shared by the modules, with their specifications.
- `tests/` — tests of the library on concrete values.
- `app/` — process-wide plumbing: a global locale and translation table behind
  free i18n functions, the system clipboard for the paste button, and the wall
  clock that drives the orchestrator.
