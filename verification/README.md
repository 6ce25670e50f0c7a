# regin

regin is an autonomous operator for a Linux machine: it keeps the machine at
its desired ("to-be") state, tracks ITIL incidents, changes and problems,
talks to its supervisor over a file-bridged message bus, and gates risky
actions behind red-lines, a role's capability ceiling and a values check.

## Layout

- `src/` — the decision core, written in Verus. Every function carries a
  contract over a mathematical model of its inputs and is proved against it:
  the guardrail (red-lines and capability ceilings), deliberation steps and
  principle derivation, goal and intent lifecycles, the planning control
  loop's round conclusion, desired-state splitting and text contradictions,
  notice filters and user-over-system layering, the bus cursor, deputy
  failover, meeting minutes, foreman handovers, escalation and approval
  payloads, the identity store's migration/import/curation rules, and every
  command-line view. Public `law_*` proof functions state the properties
  that span several operations.
- `tests/` — executable tests of the library on concrete values.
- `app/` — the command-line program around the library: argument parsing,
  the SQLite stores, the bus and deputy files, TOML and JSON decoding,
  worker processes, the asynchronous loops, and the floating-point metrics.
