# iced_inspector

Verified logic of a widget inspector and of the integer bookkeeping around it.

- `src/` is the verified library: widget ids, source locations, widget-specific
  JSON data (`specific`), the two inspection operations (`inspectable`:
  widgets by id, and editing one widget; `inspector`: widgets by id with the
  widgets each container holds), button properties (`button`), quad batching,
  indices and buffer layout (`quad`), the offscreen source texture
  (`offscreen`), the backend's renderer choice (`backend`) and actions
  (`action`).
- `app/` connects it to the widget library: widgets and `Operation`s that hand
  what they meet to the library, and JSON encoding with `serde_json`.
- `tests/` runs the library on concrete values.
