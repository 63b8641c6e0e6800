# jev-team-calendar

A team calendar planner built on SolverForge: discovered candidates are
assigned to tasks and tasks to half-hour slots of one work week, and a set of
hard and soft constraints scores each plan.

- `src/` is the library, verified with Verus: the planning model
  (`domain`), the nine scoring constraints and their sum (`constraints`),
  the work-week slot grid and the demo projects (`data`), the plain-data
  parts of the job API and telemetry (`api`, `solver`), and the score type.
  Its contracts are stated over spec functions; `constraints::assemble`
  proves that a plan scores zero hard exactly when it breaks no hard rule.
- `tests/` runs the library on concrete plans and inputs.
- `app/` is the HTTP server around it: routes, the solver jobs, server-sent
  events, JSON and file loading.
