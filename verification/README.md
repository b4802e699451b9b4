# liberado-caldav-mcp

An MCP server that offers CalDAV calendars, tasks (VTODO) and CardDAV
contacts as tools. The part that decides what is sent to the server and what
is made of its answers is a library verified with Verus.

## Layout

- `src/` — the verified library
  - `text.rs` — character sequences, trimming, searching, decimal numbers
  - `props.rs` — `Props`, the ordered property map of a component
  - `ical.rs` — reading (`parse_ical_component`) and writing
    (`build_event_ical`, `build_task_ical`, `build_vcard`) iCalendar and vCard,
    and the lines an update keeps as they were (`kept_component_lines`)
  - `datetime.rs` — iCalendar and ISO 8601 dates (chrono behind trusted items)
  - `xml.rs` — reading a WebDAV multistatus (quick-xml behind trusted items)
  - `caldav.rs` — collection URLs, request bodies, turning responses into
    calendars, events, tasks, address books and contacts
  - `writes.rs` — what a create or an update PUTs
  - `roundtrip.rs`, `laws.rs` — the proofs that listed properties whose
    values fit on one content line read back as written; that an update
    changes only what it is asked to, its listed values reading back as
    written; and that, where every stored line is a clean content line,
    the other properties of an updated component read back as they were
    stored
- `tests/` — tests of the library
- `app/` — the HTTP exchanges, the MCP server and `main`
