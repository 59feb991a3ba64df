# openbrief

A local-first attention handoff: it records which application had focus
(metadata only), projects that timeline into quarter-hour activity slices,
and turns observation batches into a finite brief and an agent's triage
proposal, which the user alone confirms.

## Layout

- `src/` — the verified library (Verus). Each module states its behaviour in
  `requires`/`ensures` over mathematical models and proves it:
  - `instant`, `text` — instants and spans, text trimming, words and lines;
  - `focus`, `slices` — focus transitions and segments, their reduction and
    the activity projection;
  - `collector` — the collector's state machine (event in, step out), with
    its laws (pause, resume, exclusion, presence, and the order in which its
    loop appends transitions);
  - `attention`, `triage`, `views` — observation batches, briefs, triage
    proposals, their validation, confirmation and the views clients show;
  - `records` — the stored attention records as the store's operations
    change them, with the laws of confirmation and ingest across calls;
  - `storage`, `journal` — the stored form of segments and the daemon's event
    journal;
  - `config`, `presence`, `niri`, `cli`, `service`, `protocol` — configuration,
    session presence, the compositor's focus stream, command-line rules, the
    user service and the control protocol;
  - `agent`, `runtime`, `host`, `mcp`, `remote` — the agent runtime catalog,
    statuses and events, the steps of starting the runtime, the proposal
    tools and the remote API's checks.
- `tests/` — tests of the library on concrete values.
- `app/` — the program around it: the command line, SQLite, sockets, the
  compositor and session readers, the agent process, the MCP and HTTP
  servers.

There is no graphical desktop front end: the daemon, the command line and
the HTTP and MCP servers are the program's only surfaces.
