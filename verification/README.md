# ruix_dashboard

The verified core of a live system-monitor dashboard.

- `src/` — the library, verified with Verus: byte, rate and uptime texts
  (`data`, `decimal`, `labels`), disk and counter summaries and the stable
  top-k ranking of processes (`data`, `rank`), the sparkline history ring
  buffer with network rates (`history`), the node-id scheme (`ids`), pages
  and navigation state (`pages`, `nav`).
- `app/` — the program around it: metric collection through `sysinfo`,
  the RUIX UI tree (header, sidebar, pages, cards, sparklines), colors and
  geometry, all of which work on floating point or on the UI engine.
- `tests/` — tests of the library, including a comparison of the byte and
  rate texts with the floating-point formatting they reproduce.
