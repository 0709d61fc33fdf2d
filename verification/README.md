# chezmoi

A home monitoring agent and the pieces of its dashboard, with the decisions
they take proved by Verus.

- `src/` is the verified library.
  - `cache` — the deduplicating metric cache: which metrics pass, what it
    remembers per header, and how `vacuum` bounds it.
  - `agent` — sensor readings (ATC thermometer service data, Miflora
    readings, bluetooth presence), the per-sensor cache and collector, the
    retry rounds over missing devices, the Miflora fetch interval and
    backoff, the ATC read interval, and the batching and caching exporters.
  - `client` — what the dashboard draws: class names, icon names, chart
    geometry and ranges, dates, the order of sections and cards.
- `tests/` runs the library on concrete values.
- `app/` is the agent program: configuration, bluetooth, system readings,
  HTTP export, and the HTML rendering of the dashboard.
