# rocket_tycoon

Game rules of a rocket-company tycoon game, written in Verus with their contracts
proved: the game calendar, engine fuel/cycle tables, design lineages and workflow
phases, launch sequencing, flaw templates and triggers, the Earth-Moon delta-v map
with its cheapest-route search and mission plans, flight progress, manufacturing
floor space, orders, the unit-by-unit completion of orders and inventories, the team
roster, a design's flaw book, the company's mission desk (contracts, depot missions,
launch counters), the daily transit of flights, launch manifests and event logs.

Layout:

- `src/` — the verified library. Each module states its data as mathematical
  views and spec functions; the public functions carry `requires`/`ensures`
  contracts, and the `lemma_*` proof functions state the laws that span several
  operations (for example that a day of floor-space construction conserves units,
  or that cancelling an order just started gives back the order book). Functions
  such as `Manufacturing::can_start_order` and `can_complete_unit` test, for
  unverified callers, the conditions that other functions require.
  Randomness (`rand`) and Unicode lower-casing are reached through a few small
  trusted wrappers whose contracts say only what those functions guarantee.
- `app/` — ordinary Rust around the library: the floating-point models (costs,
  masses, physics, flaw severities, work progress and team efficiency,
  reputation), the company with its money and its daily loop over the verified
  steps, the design workflow's work progress, serialisable copies of library types,
  and contract generation.
- `tests/` — tests of the library on concrete values.

Out of scope: full rocket designs (stages with tanks and masses), launches with their
physics, world seeds, and engine statistics. The company keeps no rocket design
lineages of its own; launches and flights take the lineage index and revision number
from the caller.
