# xynergy

The logic behind the xynergy web pages (role dashboard, audit reports, payroll
validation, CTC forms and completeness, cash flow, allocations timeline,
departments and holidays), written in Verus with its behaviour stated in
contracts and proved.

- `src/` is the verified library. Each module holds a page's rules: text and
  number rendering (`text`, `numbers`, `display`, `labels`), identifiers and
  dates (`ids`, `dates`), the JSON model and readers (`json`, `extract`), the
  dashboard value map and change highlighting (`dashboard`, `value_map`,
  `poller`), report filters and tables (`audit`, `validation`,
  `report_cells`), forms and request paths (`forms`, `requests`), which
  roles may open a page and what it then loads (`access`), the allocation
  timeline (`timeline`, `allocations`), and the properties that span
  several functions (`laws`; `dashboard_laws` and `shown_text` for the value
  map).
- `app/` is the unverified shell: the API's JSON shapes, the percentage
  helpers that work on floating-point values, and the HTTP calls.
- `tests/` runs the library on concrete inputs.
